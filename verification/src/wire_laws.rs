//! What is read out of bytes that no message of this library would write: fields of other kinds are
//! passed over, and bytes that are no fields are refused.
use vstd::prelude::*;

use crate::client_laws::{is_payload, messages_are_taken_in_by_parts};
use crate::client_message::{ClientMessage, ClientMessageView};
use crate::message::{absorbed_all, Message};
use crate::wire::{
    field_at, field_bytes, fields_of, group_length, key_at, key_bytes, lemma_field_read_back,
    lemma_groups_length, lemma_wire_bytes_front, value_length, varint_bytes, varint_round_trip,
    wire_bytes, writable, WireField, WireValue,
};

verus! {

/// A key is read back as its tag and its wire type; a number that has no tag, or a wire type that
/// there is not, is no key.
pub proof fn keys_are_read_back(tag: u32, wire_type: u8, number: u64, rest: Seq<u8>)
    ensures
        1 <= tag < 0x2000_0000 && wire_type <= 5 ==> key_at(key_bytes(tag, wire_type) + rest)
            == Some((tag, wire_type, key_bytes(tag, wire_type).len())),
        number > u32::MAX || number < 8 || number % 8 > 5 ==> key_at(varint_bytes(number) + rest) is None,
{
    if 1 <= tag < 0x2000_0000 && wire_type <= 5 {
        varint_round_trip((tag * 8 + wire_type) as u64, rest);
    }
    varint_round_trip(number, rest);
}

proof fn lemma_key(tag: u32, wire_type: u8, rest: Seq<u8>)
    requires
        1 <= tag < 0x2000_0000,
        wire_type <= 5,
    ensures
        key_at(key_bytes(tag, wire_type) + rest) == Some(
            (tag, wire_type, key_bytes(tag, wire_type).len()),
        ),
        (key_bytes(tag, wire_type) + rest).skip(key_bytes(tag, wire_type).len() as int) == rest,
        key_bytes(tag, wire_type).len() > 0,
{
    keys_are_read_back(tag, wire_type, 0, rest);
    lemma_groups_length(key_bytes(tag, wire_type) + rest, 10);
    assert((key_bytes(tag, wire_type) + rest).skip(key_bytes(tag, wire_type).len() as int) =~= rest);
}

/// Values of four and of eight bytes are passed over, and have to be there; so has a run of bytes
/// of the length that stands in front of it. What closes a group closes nothing outside of one.
pub proof fn values_have_to_be_there(tag: u32, length: u64, rest: Seq<u8>, budget: nat)
    requires
        1 <= tag < 0x2000_0000,
        budget > 0,
    ensures
        field_at(key_bytes(tag, 1) + rest, budget) == if rest.len() >= 8 {
            Some((WireField { tag, value: WireValue::Opaque }, key_bytes(tag, 1).len() + 8))
        } else {
            None
        },
        field_at(key_bytes(tag, 5) + rest, budget) == if rest.len() >= 4 {
            Some((WireField { tag, value: WireValue::Opaque }, key_bytes(tag, 5).len() + 4))
        } else {
            None
        },
        rest.len() < length ==> field_at(
            key_bytes(tag, 2) + (varint_bytes(length) + rest),
            budget,
        ) is None,
        field_at(key_bytes(tag, 4) + rest, budget) is None,
        field_at(key_bytes(tag, 0), budget) is None,
        field_at(key_bytes(tag, 2), budget) is None,
{
    lemma_key(tag, 1, rest);
    lemma_key(tag, 5, rest);
    lemma_key(tag, 4, rest);
    lemma_key(tag, 2, varint_bytes(length) + rest);
    varint_round_trip(length, rest);
    let none = Seq::<u8>::empty();
    lemma_key(tag, 0, none);
    lemma_key(tag, 2, none);
    assert(key_bytes(tag, 0) + none =~= key_bytes(tag, 0));
    assert(key_bytes(tag, 2) + none =~= key_bytes(tag, 2));
}

proof fn lemma_group(tag: u32, fs: Seq<WireField>, closing: u32, rest: Seq<u8>, budget: nat)
    requires
        1 <= tag < 0x2000_0000,
        1 <= closing < 0x2000_0000,
        forall|i: int| 0 <= i < fs.len() ==> writable(#[trigger] fs[i]),
        budget > 1,
    ensures
        group_length(wire_bytes(fs) + (key_bytes(closing, 4) + rest), tag, budget) == if tag
            == closing {
            Some(wire_bytes(fs).len() + key_bytes(closing, 4).len())
        } else {
            None
        },
    decreases fs.len(),
{
    let end = key_bytes(closing, 4) + rest;
    let b = wire_bytes(fs) + end;
    if fs.len() == 0 {
        assert(b =~= end);
        lemma_key(closing, 4, rest);
    } else {
        let f = fs[0];
        let more = fs.drop_first();
        let tail = wire_bytes(more) + end;
        lemma_wire_bytes_front(fs);
        assert(b =~= field_bytes(f) + tail);
        lemma_field_read_back(f, tail, (budget - 1) as nat);
        let (_, wire_type, n) = key_at(b).unwrap();
        let m = value_length(b.skip(n as int), wire_type, f.tag, (budget - 1) as nat).unwrap();
        assert(n + m == field_bytes(f).len());
        assert(b.skip((n + m) as int) =~= tail);
        assert forall|i: int| 0 <= i < more.len() implies writable(#[trigger] more[i]) by {
            assert(more[i] == fs[i + 1]);
        }
        lemma_group(tag, more, closing, rest, budget);
    }
}

/// A group is passed over as a whole, whatever fields it holds, if it is closed under its own tag;
/// closed under another tag it is refused.
pub proof fn groups_are_passed_over(
    tag: u32,
    fs: Seq<WireField>,
    closing: u32,
    rest: Seq<u8>,
    budget: nat,
)
    requires
        1 <= tag < 0x2000_0000,
        1 <= closing < 0x2000_0000,
        forall|i: int| 0 <= i < fs.len() ==> writable(#[trigger] fs[i]),
        budget > 1,
    ensures
        ({
            let group = key_bytes(tag, 3) + (wire_bytes(fs) + (key_bytes(closing, 4) + rest));
            field_at(group, budget) == if tag == closing {
                Some(
                    (
                        WireField { tag, value: WireValue::Opaque },
                        key_bytes(tag, 3).len() + wire_bytes(fs).len() + key_bytes(tag, 4).len(),
                    ),
                )
            } else {
                None
            }
        }),
{
    lemma_key(tag, 3, wire_bytes(fs) + (key_bytes(closing, 4) + rest));
    lemma_group(tag, fs, closing, rest, budget);
}

/// A frame is read field by field to its end: what stands behind the fields that were written is
/// read as further fields, and if it is none, the whole frame is refused.
pub proof fn frames_are_read_to_their_end(fs: Seq<WireField>, rest: Seq<u8>, budget: nat)
    requires
        forall|i: int| 0 <= i < fs.len() ==> writable(#[trigger] fs[i]),
        budget > 0,
    ensures
        fields_of(wire_bytes(fs) + rest, budget) == match fields_of(rest, budget) {
            Some(more) => Some(fs + more),
            None => None,
        },
        rest.len() > 0 && field_at(rest, budget) is None ==> fields_of(rest, budget) is None,
    decreases fs.len(),
{
    let b = wire_bytes(fs) + rest;
    if fs.len() == 0 {
        assert(b =~= rest);
        if let Some(more) = fields_of(rest, budget) {
            assert(fs + more =~= more);
        }
    } else {
        let more = fs.drop_first();
        let tail = wire_bytes(more) + rest;
        lemma_wire_bytes_front(fs);
        assert(b =~= field_bytes(fs[0]) + tail);
        lemma_field_read_back(fs[0], tail, budget);
        assert(b.skip(field_bytes(fs[0]).len() as int) =~= tail);
        assert forall|i: int| 0 <= i < more.len() implies writable(#[trigger] more[i]) by {
            assert(more[i] == fs[i + 1]);
        }
        frames_are_read_to_their_end(more, rest, budget);
        if let Some(further) = fields_of(rest, budget) {
            assert(seq![fs[0]] + (more + further) =~= fs + further);
        }
    }
}

/// A frame that is no run of fields is no message, and neither is one with a field that the message
/// refuses.
pub proof fn broken_frames_say_nothing(
    frame: Seq<u8>,
    before: Seq<WireField>,
    f: WireField,
    behind: Seq<WireField>,
)
    requires
        fields_of(frame, 100) is None || (fields_of(frame, 100) == Some(before.push(f) + behind)
            && forall|v: ClientMessageView| #[trigger] ClientMessage::absorbed(v, f, 100) is None),
    ensures
        ClientMessage::decoded(frame) is None,
{
    if fields_of(frame, 100) is Some {
        let init = ClientMessageView { payload: None };
        assert(before.push(f).drop_last() =~= before);
        messages_are_taken_in_by_parts::<ClientMessage>(init, before.push(f), behind, 100);
        assert(absorbed_all::<ClientMessage>(init, before.push(f), 100) is None);
    }
}

/// Groups one inside of the other, so many levels deep.
pub open spec fn nested(tag: u32, levels: nat) -> Seq<u8>
    decreases levels,
{
    if levels == 0 {
        seq![]
    } else {
        key_bytes(tag, 3) + nested(tag, (levels - 1) as nat) + key_bytes(tag, 4)
    }
}

proof fn lemma_nested(tag: u32, levels: nat, rest: Seq<u8>, budget: nat)
    requires
        1 <= tag < 0x2000_0000,
    ensures
        value_length(nested(tag, levels) + (key_bytes(tag, 4) + rest), 3, tag, budget) == if levels
            < budget {
            Some(nested(tag, levels).len() + key_bytes(tag, 4).len())
        } else {
            None
        },
    decreases levels,
{
    let end = key_bytes(tag, 4) + rest;
    let b = nested(tag, levels) + end;
    if budget > 0 {
        if levels == 0 {
            assert(b =~= end);
            lemma_key(tag, 4, rest);
        } else {
            let inner = nested(tag, (levels - 1) as nat);
            let tail = inner + (key_bytes(tag, 4) + end);
            assert(b =~= key_bytes(tag, 3) + tail);
            lemma_key(tag, 3, tail);
            lemma_nested(tag, (levels - 1) as nat, end, (budget - 1) as nat);
            lemma_key(tag, 4, rest);
            let n = key_bytes(tag, 3).len();
            let m = inner.len() + key_bytes(tag, 4).len();
            assert(b.skip((n + m) as int) =~= end);
            assert(n + m <= b.len());
            assert(group_length(end, tag, budget) == Some(key_bytes(tag, 4).len()));
        }
    }
}

/// Groups may nest exactly as deep as levels are left, and are passed over then.
pub proof fn groups_nest_as_deep_as_levels_are_left(
    tag: u32,
    levels: nat,
    rest: Seq<u8>,
    budget: nat,
)
    requires
        1 <= tag < 0x2000_0000,
        levels > 0,
    ensures
        field_at(nested(tag, levels) + rest, budget) == if levels <= budget {
            Some((WireField { tag, value: WireValue::Opaque }, nested(tag, levels).len()))
        } else {
            None
        },
{
    let inner = nested(tag, (levels - 1) as nat);
    let tail = inner + (key_bytes(tag, 4) + rest);
    assert(nested(tag, levels) + rest =~= key_bytes(tag, 3) + tail);
    lemma_key(tag, 3, tail);
    lemma_nested(tag, (levels - 1) as nat, rest, budget);
}

/// A frame of groups under a tag that no message has says nothing if the groups nest at most a
/// hundred levels deep, and is refused if they nest deeper.
pub proof fn frames_nest_a_hundred_levels_deep(tag: u32, levels: nat)
    requires
        1 <= tag < 0x2000_0000,
        !is_payload(tag),
        levels > 0,
    ensures
        ClientMessage::decoded(nested(tag, levels)) == if levels <= 100 {
            Some(ClientMessageView { payload: None })
        } else {
            None
        },
{
    let b = nested(tag, levels);
    let none = Seq::<u8>::empty();
    groups_nest_as_deep_as_levels_are_left(tag, levels, none, 100);
    assert(b + none =~= b);
    lemma_key(tag, 3, nested(tag, (levels - 1) as nat) + key_bytes(tag, 4));
    assert(b.len() > 0);
    if levels <= 100 {
        let f = WireField { tag, value: WireValue::Opaque };
        assert(b.skip(b.len() as int) =~= none);
        assert(fields_of(none, 100) == Some(Seq::<WireField>::empty()));
        assert(fields_of(b, 100) == Some(seq![f])) by {
            assert(seq![f] + Seq::<WireField>::empty() =~= seq![f]);
        }
        let init = ClientMessageView { payload: None };
        assert(seq![f].drop_last() =~= seq![]);
        assert(absorbed_all::<ClientMessage>(init, seq![f].drop_last(), 100) == Some(init));
        assert(absorbed_all::<ClientMessage>(init, seq![f], 100) == Some(init));
    }
}

} // verus!
