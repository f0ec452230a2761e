//! What all messages share: absorbing fields one after the other, and laying fields out.
use vstd::prelude::*;
use vstd::utf8::{decode_utf8, encode_utf8, valid_utf8};

use crate::text::text_from_utf8;
use crate::wire::{
    field_bytes, fields_of, fields_view, lemma_groups_length, lemma_joined, parse_fields, push_bytes,
    push_number, push_varint, take_varint, varint_at, varint_bytes, wire_bytes, Field, FieldValue,
    WireField, WireValue,
};

verus! {

// ---------------------------------------------------------------------------------------------
// Reading
// ---------------------------------------------------------------------------------------------
/// A message that is read field by field. A field with an unknown tag changes nothing; a field
/// that carries something else than its tag announces spoils the message.
pub trait Message: View + Sized {
    /// The message after one more field.
    spec fn absorbed(v: Self::V, f: WireField, budget: nat) -> Option<Self::V>;

    /// Takes one more field in. `budget` levels of nesting are left inside this message.
    fn absorb(self, f: &Field, budget: u32) -> (r: Option<Self>)
        ensures
            match Self::absorbed(self@, f@, budget as nat) {
                Some(v) => r matches Some(m) && m@ == v,
                None => r is None,
            },
    ;
}

/// The message after some more fields.
pub open spec fn absorbed_all<M: Message>(init: M::V, fs: Seq<WireField>, budget: nat) -> Option<
    M::V,
>
    decreases fs.len(),
{
    if fs.len() == 0 {
        Some(init)
    } else {
        match absorbed_all::<M>(init, fs.drop_last(), budget) {
            Some(v) => M::absorbed(v, fs.last(), budget),
            None => None,
        }
    }
}

/// The message after the fields that the bytes hold.
pub open spec fn merged<M: Message>(init: M::V, b: Seq<u8>, budget: nat) -> Option<M::V> {
    match fields_of(b, budget) {
        Some(fs) => absorbed_all::<M>(init, fs, budget),
        None => None,
    }
}

proof fn lemma_spoilt<M: Message>(init: M::V, fs: Seq<WireField>, budget: nat, i: int)
    requires
        0 <= i <= fs.len(),
        absorbed_all::<M>(init, fs.take(i), budget) is None,
    ensures
        absorbed_all::<M>(init, fs, budget) is None,
    decreases fs.len() - i,
{
    if i < fs.len() {
        assert(fs.take(i + 1).drop_last() =~= fs.take(i));
        lemma_spoilt::<M>(init, fs, budget, i + 1);
    } else {
        assert(fs.take(i) =~= fs);
    }
}

/// Takes the fields in that the bytes hold.
pub fn merge<M: Message>(init: M, b: &[u8], budget: u32) -> (r: Option<M>)
    ensures
        match merged::<M>(init@, b@, budget as nat) {
            Some(v) => r matches Some(m) && m@ == v,
            None => r is None,
        },
{
    let fields: Vec<Field> = match parse_fields(b, budget) {
        Some(fields) => fields,
        None => {
            return None;
        },
    };
    let ghost fs = fields_view(fields@);
    let ghost start = init@;
    let mut message: M = init;
    let mut i: usize = 0;
    proof {
        assert(fs.take(0) =~= seq![]);
    }
    while i < fields.len()
        invariant
            i <= fields@.len(),
            start == init@,
            fs == fields_view(fields@),
            fields_of(b@, budget as nat) == Some(fs),
            absorbed_all::<M>(start, fs.take(i as int), budget as nat) == Some(message@),
        decreases fields@.len() - i,
    {
        proof {
            assert(fs.take(i + 1).drop_last() =~= fs.take(i as int));
            assert(fs.take(i + 1).last() == fields@[i as int]@);
        }
        match message.absorb(&fields[i], budget) {
            Some(next) => {
                message = next;
            },
            None => {
                proof {
                    lemma_spoilt::<M>(start, fs, budget as nat, i + 1);
                }
                return None;
            },
        }
        i = i + 1;
    }
    proof {
        assert(fs.take(i as int) =~= fs);
    }
    Some(message)
}

/// A field read as a number.
pub open spec fn as_number(value: WireValue) -> Option<u64> {
    match value {
        WireValue::Varint(v) => Some(v),
        _ => None,
    }
}

/// A field read as text: a run of bytes that is valid UTF-8.
pub open spec fn as_text(value: WireValue) -> Option<Seq<char>> {
    match value {
        WireValue::Bytes(b) => if valid_utf8(b) {
            Some(decode_utf8(b))
        } else {
            None
        },
        _ => None,
    }
}

/// A field read as a run of bytes.
pub open spec fn as_bytes(value: WireValue) -> Option<Seq<u8>> {
    match value {
        WireValue::Bytes(b) => Some(b),
        _ => None,
    }
}

/// Numbers that stand one behind the other.
pub open spec fn packed_numbers(b: Seq<u8>) -> Option<Seq<i32>>
    decreases b.len(),
    via packed_numbers_end
{
    if b.len() == 0 {
        Some(seq![])
    } else {
        match varint_at(b) {
            Some((v, n)) => match packed_numbers(b.skip(n as int)) {
                Some(rest) => Some(seq![v as i32] + rest),
                None => None,
            },
            None => None,
        }
    }
}

#[via_fn]
proof fn packed_numbers_end(b: Seq<u8>) {
    lemma_groups_length(b, 10);
}

/// A field read as part of a list of numbers: one number, or a packed run of them.
pub open spec fn as_numbers(value: WireValue) -> Option<Seq<i32>> {
    match value {
        WireValue::Varint(v) => Some(seq![v as i32]),
        WireValue::Bytes(b) => packed_numbers(b),
        WireValue::Opaque => None,
    }
}

/// The text in an optional value.
pub open spec fn option_text(s: Option<String>) -> Option<Seq<char>> {
    match s {
        Some(s) => Some(s@),
        None => None,
    }
}

/// A field read as an embedded message, on top of what the message holds already.
pub open spec fn as_message<M: Message>(init: M::V, value: WireValue, budget: nat) -> Option<M::V> {
    match value {
        WireValue::Bytes(b) => if budget > 0 {
            merged::<M>(init, b, (budget - 1) as nat)
        } else {
            None
        },
        _ => None,
    }
}

/// Reads a field as a number.
pub fn number(f: &Field) -> (r: Option<u64>)
    ensures
        r == as_number(f@.value),
{
    match f.value {
        FieldValue::Varint(v) => Some(v),
        _ => None,
    }
}

/// Reads a field as text.
pub fn text(f: &Field) -> (r: Option<String>)
    ensures
        match as_text(f@.value) {
            Some(t) => r matches Some(s) && s@ == t,
            None => r is None,
        },
{
    match &f.value {
        FieldValue::Bytes(b) => text_from_utf8(b.as_slice()),
        _ => None,
    }
}

/// Reads a field as a run of bytes.
pub fn bytes(f: &Field) -> (r: Option<Vec<u8>>)
    ensures
        match as_bytes(f@.value) {
            Some(b) => r matches Some(v) && v@ == b,
            None => r is None,
        },
{
    match &f.value {
        FieldValue::Bytes(b) => Some(vstd::slice::slice_to_vec(b.as_slice())),
        _ => None,
    }
}

/// Appends the numbers of a field; whether the field holds numbers.
pub fn push_numbers(list: &mut Vec<i32>, f: &Field) -> (r: bool)
    ensures
        match as_numbers(f@.value) {
            Some(x) => r && final(list)@ == old(list)@ + x,
            None => !r,
        },
{
    match &f.value {
        FieldValue::Varint(v) => {
            list.push(*v as i32);
            assert(list@ =~= old(list)@ + seq![*v as i32]);
            true
        },
        FieldValue::Bytes(b) => {
            let mut rest: &[u8] = b.as_slice();
            while rest.len() > 0
                invariant
                    f@.value == WireValue::Bytes(b@),
                    match packed_numbers(rest@) {
                        Some(x) => packed_numbers(b@) matches Some(all) && list@ + x == old(list)@
                            + all,
                        None => packed_numbers(b@) is None,
                    },
                decreases rest@.len(),
            {
                proof {
                    lemma_groups_length(rest@, 10);
                }
                match take_varint(rest) {
                    Some((v, tail)) => {
                        let ghost before = list@;
                        list.push(v as i32);
                        proof {
                            if let Some(x) = packed_numbers(tail@) {
                                assert(before + (seq![v as i32] + x) =~= list@ + x);
                            }
                        }
                        rest = tail;
                    },
                    None => {
                        return false;
                    },
                }
            }
            assert(list@ + Seq::<i32>::empty() =~= list@);
            true
        },
        FieldValue::Opaque => false,
    }
}

/// Reads a field as an embedded message, on top of what the message holds already.
pub fn message<M: Message>(init: M, f: &Field, budget: u32) -> (r: Option<M>)
    ensures
        match as_message::<M>(init@, f@.value, budget as nat) {
            Some(v) => r matches Some(m) && m@ == v,
            None => r is None,
        },
{
    match &f.value {
        FieldValue::Bytes(b) => {
            if budget > 0 {
                merge(init, b.as_slice(), budget - 1)
            } else {
                None
            }
        },
        _ => None,
    }
}

// ---------------------------------------------------------------------------------------------
// Writing
// ---------------------------------------------------------------------------------------------
/// A message that can be laid out as fields.
pub trait Writable: View + Sized {
    /// The fields of the message. A number that is zero, a flag that is not set and an empty run
    /// of bytes have no field, unless they are optional and present.
    spec fn fields(v: Self::V) -> Seq<WireField>;

    /// Appends the message.
    fn put(&self, out: &mut Vec<u8>)
        ensures
            final(out)@ == old(out)@ + wire_bytes(Self::fields(self@)),
    ;
}

/// A number; none if it is zero.
pub open spec fn number_field(tag: u32, v: u64) -> Seq<WireField> {
    if v == 0 {
        seq![]
    } else {
        seq![WireField { tag, value: WireValue::Varint(v) }]
    }
}

/// A flag; none if it is not set.
pub open spec fn flag_field(tag: u32, v: bool) -> Seq<WireField> {
    number_field(tag, if v { 1 } else { 0 })
}

/// A run of bytes that is there even if it is empty.
pub open spec fn present_field(tag: u32, b: Seq<u8>) -> Seq<WireField> {
    seq![WireField { tag, value: WireValue::Bytes(b) }]
}

/// A run of bytes; none if it is empty.
pub open spec fn bytes_field(tag: u32, b: Seq<u8>) -> Seq<WireField> {
    if b.len() == 0 {
        seq![]
    } else {
        present_field(tag, b)
    }
}

/// A text; none if it is empty.
pub open spec fn text_field(tag: u32, t: Seq<char>) -> Seq<WireField> {
    bytes_field(tag, encode_utf8(t))
}

/// A text that may be missing.
pub open spec fn option_text_field(tag: u32, t: Option<Seq<char>>) -> Seq<WireField> {
    match t {
        Some(t) => present_field(tag, encode_utf8(t)),
        None => seq![],
    }
}

/// One field per text.
pub open spec fn texts_field(tag: u32, ts: Seq<Seq<char>>) -> Seq<WireField> {
    ts.map_values(|t: Seq<char>| WireField { tag, value: WireValue::Bytes(encode_utf8(t)) })
}

/// An embedded message.
pub open spec fn message_field<M: Writable>(tag: u32, v: M::V) -> Seq<WireField> {
    present_field(tag, wire_bytes(M::fields(v)))
}

/// An embedded message that may be missing.
pub open spec fn option_message_field<M: Writable>(tag: u32, v: Option<M::V>) -> Seq<WireField> {
    match v {
        Some(v) => message_field::<M>(tag, v),
        None => seq![],
    }
}

/// One field per message.
pub open spec fn messages_field<M: Writable>(tag: u32, vs: Seq<M::V>) -> Seq<WireField> {
    vs.map_values(|v: M::V| WireField { tag, value: WireValue::Bytes(wire_bytes(M::fields(v))) })
}

/// Numbers one behind the other.
pub open spec fn packed_bytes(ns: Seq<u32>) -> Seq<u8>
    decreases ns.len(),
{
    if ns.len() == 0 {
        seq![]
    } else {
        packed_bytes(ns.drop_last()) + varint_bytes(ns.last() as u64)
    }
}

/// Numbers in one run; none if there are none.
pub open spec fn packed_field(tag: u32, ns: Seq<u32>) -> Seq<WireField> {
    bytes_field(tag, packed_bytes(ns))
}

proof fn lemma_wire_bytes_one(f: WireField)
    ensures
        wire_bytes(seq![f]) == field_bytes(f),
        wire_bytes(seq![]) == Seq::<u8>::empty(),
{
    assert(wire_bytes(seq![f].drop_last()) =~= Seq::<u8>::empty());
    assert(wire_bytes(seq![f]) =~= field_bytes(f));
}

/// Appends [`number_field`].
pub fn put_number(out: &mut Vec<u8>, tag: u32, v: u64)
    requires
        1 <= tag < 0x2000_0000,
    ensures
        final(out)@ == old(out)@ + wire_bytes(number_field(tag, v)),
{
    proof {
        lemma_wire_bytes_one(WireField { tag, value: WireValue::Varint(v) });
    }
    if v != 0 {
        push_number(out, tag, v);
    }
    assert(out@ =~= old(out)@ + wire_bytes(number_field(tag, v)));
}

/// Appends [`flag_field`].
pub fn put_flag(out: &mut Vec<u8>, tag: u32, v: bool)
    requires
        1 <= tag < 0x2000_0000,
    ensures
        final(out)@ == old(out)@ + wire_bytes(flag_field(tag, v)),
{
    put_number(
        out,
        tag,
        if v {
            1
        } else {
            0
        },
    );
}

fn put_present(out: &mut Vec<u8>, tag: u32, b: &[u8])
    requires
        1 <= tag < 0x2000_0000,
    ensures
        final(out)@ == old(out)@ + wire_bytes(present_field(tag, b@)),
{
    proof {
        lemma_wire_bytes_one(WireField { tag, value: WireValue::Bytes(b@) });
    }
    push_bytes(out, tag, b);
}

/// Appends [`bytes_field`].
pub fn put_bytes(out: &mut Vec<u8>, tag: u32, b: &[u8])
    requires
        1 <= tag < 0x2000_0000,
    ensures
        final(out)@ == old(out)@ + wire_bytes(bytes_field(tag, b@)),
{
    if b.len() != 0 {
        put_present(out, tag, b);
    }
    assert(out@ =~= old(out)@ + wire_bytes(bytes_field(tag, b@)));
}

/// Appends [`text_field`].
pub fn put_text(out: &mut Vec<u8>, tag: u32, t: &str)
    requires
        1 <= tag < 0x2000_0000,
    ensures
        final(out)@ == old(out)@ + wire_bytes(text_field(tag, t@)),
{
    put_bytes(out, tag, t.as_bytes());
}

/// Appends [`option_text_field`].
pub fn put_option_text(out: &mut Vec<u8>, tag: u32, t: &Option<String>)
    requires
        1 <= tag < 0x2000_0000,
    ensures
        final(out)@ == old(out)@ + wire_bytes(option_text_field(tag, option_text(*t))),
{
    match t {
        Some(t) => put_present(out, tag, t.as_str().as_bytes()),
        None => {
            assert(out@ =~= old(out)@ + wire_bytes(seq![]));
        },
    }
}

/// Appends [`texts_field`].
pub fn put_texts(out: &mut Vec<u8>, tag: u32, ts: &Vec<String>)
    requires
        1 <= tag < 0x2000_0000,
    ensures
        final(out)@ == old(out)@ + wire_bytes(texts_field(tag, ts@.map_values(|s: String| s@))),
{
    let ghost all = texts_field(tag, ts@.map_values(|s: String| s@));
    let mut i: usize = 0;
    assert(out@ =~= old(out)@ + wire_bytes(all.take(0)));
    while i < ts.len()
        invariant
            1 <= tag < 0x2000_0000,
            i <= ts@.len(),
            all == texts_field(tag, ts@.map_values(|s: String| s@)),
            out@ == old(out)@ + wire_bytes(all.take(i as int)),
        decreases ts@.len() - i,
    {
        let bytes: &[u8] = ts[i].as_str().as_bytes();
        put_present(out, tag, bytes);
        proof {
            assert(all.take(i + 1) =~= all.take(i as int) + present_field(tag, bytes@));
            lemma_joined(old(out)@, all.take(i as int), present_field(tag, bytes@));
        }
        i = i + 1;
    }
    assert(all.take(i as int) =~= all);
}

/// Appends [`message_field`].
pub fn put_message<M: Writable>(out: &mut Vec<u8>, tag: u32, m: &M)
    requires
        1 <= tag < 0x2000_0000,
    ensures
        final(out)@ == old(out)@ + wire_bytes(message_field::<M>(tag, m@)),
{
    let mut body: Vec<u8> = Vec::new();
    m.put(&mut body);
    assert(body@ =~= wire_bytes(M::fields(m@)));
    put_present(out, tag, body.as_slice());
}

/// The values of something that may be missing.
pub open spec fn option_view<M: View>(m: Option<M>) -> Option<M::V> {
    match m {
        Some(m) => Some(m@),
        None => None,
    }
}

/// Appends [`option_message_field`].
pub fn put_option_message<M: Writable>(out: &mut Vec<u8>, tag: u32, m: &Option<M>)
    requires
        1 <= tag < 0x2000_0000,
    ensures
        final(out)@ == old(out)@ + wire_bytes(option_message_field::<M>(tag, option_view(*m))),
{
    match m {
        Some(m) => put_message(out, tag, m),
        None => {
            assert(out@ =~= old(out)@ + wire_bytes(seq![]));
        },
    }
}

/// Appends [`messages_field`].
pub fn put_messages<M: Writable>(out: &mut Vec<u8>, tag: u32, ms: &Vec<M>)
    requires
        1 <= tag < 0x2000_0000,
    ensures
        final(out)@ == old(out)@ + wire_bytes(messages_field::<M>(tag, ms@.map_values(|m: M| m@))),
{
    let ghost all = messages_field::<M>(tag, ms@.map_values(|m: M| m@));
    let mut i: usize = 0;
    assert(out@ =~= old(out)@ + wire_bytes(all.take(0)));
    while i < ms.len()
        invariant
            1 <= tag < 0x2000_0000,
            i <= ms@.len(),
            all == messages_field::<M>(tag, ms@.map_values(|m: M| m@)),
            out@ == old(out)@ + wire_bytes(all.take(i as int)),
        decreases ms@.len() - i,
    {
        put_message(out, tag, &ms[i]);
        proof {
            let next = message_field::<M>(tag, ms@[i as int]@);
            assert(all.take(i + 1) =~= all.take(i as int) + next);
            lemma_joined(old(out)@, all.take(i as int), next);
        }
        i = i + 1;
    }
    assert(all.take(i as int) =~= all);
}

/// Appends [`packed_field`].
pub fn put_packed(out: &mut Vec<u8>, tag: u32, ns: &Vec<u32>)
    requires
        1 <= tag < 0x2000_0000,
    ensures
        final(out)@ == old(out)@ + wire_bytes(packed_field(tag, ns@)),
{
    let mut body: Vec<u8> = Vec::new();
    let mut i: usize = 0;
    while i < ns.len()
        invariant
            i <= ns@.len(),
            body@ == packed_bytes(ns@.take(i as int)),
        decreases ns@.len() - i,
    {
        push_varint(&mut body, ns[i] as u64);
        proof {
            assert(ns@.take(i + 1).drop_last() =~= ns@.take(i as int));
        }
        i = i + 1;
    }
    assert(ns@.take(i as int) =~= ns@);
    put_bytes(out, tag, body.as_slice());
}

} // verus!
