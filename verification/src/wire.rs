//! The Protocol Buffers wire format: a message is a run of tagged fields.
//!
//! Reading a message first splits its bytes into fields ([`fields_of`]); what the fields mean is
//! up to the message. Writing goes the other way ([`wire_bytes`]). That writing and reading are
//! inverse is [`wire_round_trip`].
use vstd::prelude::*;
use vstd::slice::slice_subrange;

verus! {

broadcast use vstd::slice::group_slice_axioms;

/// How deep messages and groups may nest in one frame.
pub const NESTING_LIMIT: u32 = 100;

// ---------------------------------------------------------------------------------------------
// Variable-length integers
// ---------------------------------------------------------------------------------------------
/// A number in groups of seven bits, lowest group first; every byte but the last has its high bit
/// set.
pub open spec fn varint_bytes(v: u64) -> Seq<u8>
    decreases v,
{
    if v < 0x80 {
        seq![v as u8]
    } else {
        seq![(v % 0x80 + 0x80) as u8] + varint_bytes(v / 0x80)
    }
}

/// Value and length of the number at the front of `b`, which must end within `limit` bytes.
pub open spec fn groups_at(b: Seq<u8>, limit: nat) -> Option<(nat, nat)>
    decreases limit,
{
    if b.len() == 0 || limit == 0 {
        None
    } else if b[0] < 0x80 {
        Some((b[0] as nat, 1))
    } else {
        match groups_at(b.skip(1), (limit - 1) as nat) {
            Some((high, n)) => Some(((b[0] - 0x80 + 0x80 * high) as nat, n + 1)),
            None => None,
        }
    }
}

/// Value and length of the number at the front of `b`: at most ten bytes, and a value that fits
/// sixty-four bits.
pub open spec fn varint_at(b: Seq<u8>) -> Option<(u64, nat)> {
    match groups_at(b, 10) {
        Some((v, n)) => if v <= u64::MAX {
            Some((v as u64, n))
        } else {
            None
        },
        None => None,
    }
}

/// A number takes at least one byte, and none that is not there.
pub proof fn lemma_groups_length(b: Seq<u8>, limit: nat)
    ensures
        groups_at(b, limit) matches Some((_, n)) ==> 1 <= n <= b.len() && n <= limit,
    decreases limit,
{
    if b.len() > 0 && limit > 0 && b[0] >= 0x80 {
        lemma_groups_length(b.skip(1), (limit - 1) as nat);
    }
}

/// Appends a number in the variable-length form. The work is done by
/// `prost::encoding::encode_varint`, which writes `varint_bytes`.
#[verifier::external_body]
pub(crate) fn push_varint(out: &mut Vec<u8>, v: u64)
    ensures
        final(out)@ == old(out)@ + varint_bytes(v),
{
    prost::encoding::encode_varint(v, out)
}

/// The number at the front of `b` and what follows it. The work is done by
/// `prost::encoding::decode_varint`, which refuses exactly where `varint_at` is nothing: where the
/// bytes end too early, where ten bytes do not end the number, and where its value needs more than
/// sixty-four bits.
#[verifier::external_body]
pub(crate) fn take_varint<'a>(b: &'a [u8]) -> (r: Option<(u64, &'a [u8])>)
    ensures
        match varint_at(b@) {
            Some((v, n)) => r matches Some(p) && p.0 == v && p.1@ == b@.skip(n as int),
            None => r is None,
        },
{
    let mut rest = b;
    match prost::encoding::decode_varint(&mut rest) {
        Ok(v) => Some((v, rest)),
        Err(_) => None,
    }
}

// ---------------------------------------------------------------------------------------------
// Fields
// ---------------------------------------------------------------------------------------------
/// What a field carries, as far as a message looks at it.
pub enum WireValue {
    /// A number.
    Varint(u64),
    /// A run of bytes: text, an embedded message, packed numbers.
    Bytes(Seq<u8>),
    /// A fixed-width number or a group, which no message here declares.
    Opaque,
}

/// A field of a message.
pub struct WireField {
    pub tag: u32,
    pub value: WireValue,
}

/// What a field carries, with its bytes owned.
#[derive(Debug, PartialEq, Eq)]
pub enum FieldValue {
    Varint(u64),
    Bytes(Vec<u8>),
    Opaque,
}

/// A field of a message, with its bytes owned.
#[derive(Debug, PartialEq, Eq)]
pub struct Field {
    pub tag: u32,
    pub value: FieldValue,
}

impl View for FieldValue {
    type V = WireValue;

    open spec fn view(&self) -> WireValue {
        match self {
            FieldValue::Varint(v) => WireValue::Varint(*v),
            FieldValue::Bytes(b) => WireValue::Bytes(b@),
            FieldValue::Opaque => WireValue::Opaque,
        }
    }
}

impl View for Field {
    type V = WireField;

    open spec fn view(&self) -> WireField {
        WireField { tag: self.tag, value: self.value@ }
    }
}

/// The fields that a list of owned fields stands for.
pub open spec fn fields_view(v: Seq<Field>) -> Seq<WireField> {
    v.map_values(|f: Field| f@)
}

/// Tag and wire type at the front of `b`, and their length.
pub open spec fn key_at(b: Seq<u8>) -> Option<(u32, u8, nat)> {
    match varint_at(b) {
        Some((key, n)) => if key <= u32::MAX && key % 8 <= 5 && key / 8 >= 1 {
            Some(((key / 8) as u32, (key % 8) as u8, n))
        } else {
            None
        },
        None => None,
    }
}

/// The length of a run of bytes with its own length in front.
pub open spec fn delimited_at(b: Seq<u8>) -> Option<(nat, nat)> {
    match varint_at(b) {
        Some((len, n)) => if n + len <= b.len() {
            Some((n, (n + len) as nat))
        } else {
            None
        },
        None => None,
    }
}

/// The length of a field's value, for a reader that does not look at it. `budget` levels of
/// nesting are left.
pub open spec fn value_length(b: Seq<u8>, wire_type: u8, tag: u32, budget: nat) -> Option<nat>
    decreases b.len(), 1nat,
{
    if budget == 0 {
        None
    } else if wire_type == 0 {
        match varint_at(b) {
            Some((_, n)) => Some(n),
            None => None,
        }
    } else if wire_type == 1 {
        if b.len() >= 8 {
            Some(8)
        } else {
            None
        }
    } else if wire_type == 2 {
        match delimited_at(b) {
            Some((_, end)) => Some(end),
            None => None,
        }
    } else if wire_type == 3 {
        group_length(b, tag, budget)
    } else if wire_type == 5 {
        if b.len() >= 4 {
            Some(4)
        } else {
            None
        }
    } else {
        None
    }
}

/// The length of the fields of a group with this tag, the key that closes it included.
pub open spec fn group_length(b: Seq<u8>, tag: u32, budget: nat) -> Option<nat>
    decreases b.len(), 0nat,
    via group_length_ends
{
    match key_at(b) {
        None => None,
        Some((inner, wire_type, n)) => if wire_type == 4 {
            if inner == tag {
                Some(n)
            } else {
                None
            }
        } else if budget == 0 {
            None
        } else {
            match value_length(b.skip(n as int), wire_type, inner, (budget - 1) as nat) {
                None => None,
                Some(m) => if n + m > b.len() {
                    None
                } else {
                    match group_length(b.skip((n + m) as int), tag, budget) {
                        None => None,
                        Some(rest) => Some(n + m + rest),
                    }
                },
            }
        },
    }
}

#[via_fn]
proof fn group_length_ends(b: Seq<u8>, tag: u32, budget: nat) {
    lemma_groups_length(b, 10);
}

/// The field at the front of `b`, and its length.
pub open spec fn field_at(b: Seq<u8>, budget: nat) -> Option<(WireField, nat)> {
    match key_at(b) {
        None => None,
        Some((tag, wire_type, n)) => {
            let rest = b.skip(n as int);
            match value_length(rest, wire_type, tag, budget) {
                None => None,
                Some(m) => {
                    let value = if wire_type == 0 {
                        WireValue::Varint(varint_at(rest).unwrap().0)
                    } else if wire_type == 2 {
                        WireValue::Bytes(rest.subrange(delimited_at(rest).unwrap().0 as int, m as int))
                    } else {
                        WireValue::Opaque
                    };
                    Some((WireField { tag, value }, n + m))
                },
            }
        },
    }
}

/// The fields of a message, in order; nothing if the bytes are no run of fields.
pub open spec fn fields_of(b: Seq<u8>, budget: nat) -> Option<Seq<WireField>>
    decreases b.len(),
    via fields_of_ends
{
    if b.len() == 0 {
        Some(seq![])
    } else {
        match field_at(b, budget) {
            None => None,
            Some((f, n)) => if n > b.len() {
                None
            } else {
                match fields_of(b.skip(n as int), budget) {
                    None => None,
                    Some(fs) => Some(seq![f] + fs),
                }
            },
        }
    }
}

#[via_fn]
proof fn fields_of_ends(b: Seq<u8>, budget: nat) {
    lemma_groups_length(b, 10);
}

proof fn lemma_value_length(b: Seq<u8>, wire_type: u8, tag: u32, budget: nat)
    ensures
        value_length(b, wire_type, tag, budget) matches Some(n) ==> n <= b.len(),
    decreases b.len(), 1nat,
{
    lemma_groups_length(b, 10);
    if wire_type == 3 {
        lemma_group_length(b, tag, budget);
    }
}

proof fn lemma_group_length(b: Seq<u8>, tag: u32, budget: nat)
    ensures
        group_length(b, tag, budget) matches Some(n) ==> n <= b.len(),
    decreases b.len(), 0nat,
{
    lemma_groups_length(b, 10);
    if let Some((inner, wire_type, n)) = key_at(b) {
        if wire_type != 4 && budget > 0 {
            if let Some(m) = value_length(b.skip(n as int), wire_type, inner, (budget - 1) as nat) {
                if n + m <= b.len() {
                    lemma_group_length(b.skip((n + m) as int), tag, budget);
                }
            }
        }
    }
}

// ---------------------------------------------------------------------------------------------
// Reading
// ---------------------------------------------------------------------------------------------
fn take_key<'a>(b: &'a [u8]) -> (r: Option<(u32, u8, &'a [u8])>)
    ensures
        match key_at(b@) {
            Some((tag, wire_type, n)) => r matches Some(p) && p.0 == tag && p.1 == wire_type && p.2@
                == b@.skip(n as int),
            None => r is None,
        },
{
    match take_varint(b) {
        Some((key, rest)) => {
            if key <= 0xffff_ffff && key % 8 <= 5 && key / 8 >= 1 {
                Some(((key / 8) as u32, (key % 8) as u8, rest))
            } else {
                None
            }
        },
        None => None,
    }
}

/// What follows a field's value that nobody looks at.
fn skip_value<'a>(b: &'a [u8], wire_type: u8, tag: u32, budget: u32) -> (r: Option<&'a [u8]>)
    ensures
        match value_length(b@, wire_type, tag, budget as nat) {
            Some(n) => r matches Some(rest) && rest@ == b@.skip(n as int) && n <= b@.len(),
            None => r is None,
        },
    decreases budget, 0nat,
{
    proof {
        lemma_value_length(b@, wire_type, tag, budget as nat);
    }
    if budget == 0 {
        None
    } else if wire_type == 0 {
        match take_varint(b) {
            Some((_, rest)) => Some(rest),
            None => None,
        }
    } else if wire_type == 1 {
        if b.len() >= 8 {
            Some(slice_subrange(b, 8, b.len()))
        } else {
            None
        }
    } else if wire_type == 2 {
        match take_varint(b) {
            Some((len, rest)) => {
                proof {
                    lemma_groups_length(b@, 10);
                }
                if len <= rest.len() as u64 {
                    let tail: &[u8] = slice_subrange(rest, len as usize, rest.len());
                    assert(tail@ =~= b@.skip(delimited_at(b@).unwrap().1 as int));
                    Some(tail)
                } else {
                    None
                }
            },
            None => None,
        }
    } else if wire_type == 3 {
        skip_group(b, tag, budget)
    } else if wire_type == 5 {
        if b.len() >= 4 {
            Some(slice_subrange(b, 4, b.len()))
        } else {
            None
        }
    } else {
        None
    }
}

/// What follows a group that nobody looks at.
fn skip_group<'a>(b: &'a [u8], tag: u32, budget: u32) -> (r: Option<&'a [u8]>)
    requires
        budget > 0,
    ensures
        match group_length(b@, tag, budget as nat) {
            Some(n) => r matches Some(rest) && rest@ == b@.skip(n as int) && n <= b@.len(),
            None => r is None,
        },
    decreases budget - 1, 1nat,
{
    proof {
        lemma_group_length(b@, tag, budget as nat);
        assert(b@.skip(0) =~= b@);
    }
    let mut rest: &'a [u8] = b;
    let ghost mut done: nat = 0;
    loop
        invariant
            budget > 0,
            done <= b@.len(),
            rest@ == b@.skip(done as int),
            match group_length(rest@, tag, budget as nat) {
                Some(n) => group_length(b@, tag, budget as nat) == Some(done + n) && done + n
                    <= b@.len(),
                None => group_length(b@, tag, budget as nat) is None,
            },
        decreases rest@.len(),
    {
        proof {
            lemma_groups_length(rest@, 10);
        }
        match take_key(rest) {
            None => {
                return None;
            },
            Some((inner, wire_type, after)) => {
                let ghost n = key_at(rest@).unwrap().2;
                if wire_type == 4 {
                    if inner == tag {
                        assert(after@ =~= b@.skip((done + n) as int));
                        return Some(after);
                    } else {
                        return None;
                    }
                }
                match skip_value(after, wire_type, inner, budget - 1) {
                    None => {
                        return None;
                    },
                    Some(tail) => {
                        proof {
                            let m = value_length(after@, wire_type, inner, (budget - 1) as nat).unwrap();
                            assert(rest@.skip((n + m) as int) =~= tail@);
                            assert(tail@ =~= b@.skip((done + n + m) as int));
                            lemma_group_length(tail@, tag, budget as nat);
                            done = done + n + m;
                        }
                        rest = tail;
                    },
                }
            },
        }
    }
}

fn take_field<'a>(b: &'a [u8], budget: u32) -> (r: Option<(Field, &'a [u8])>)
    ensures
        match field_at(b@, budget as nat) {
            Some((f, n)) => r matches Some(p) && p.0@ == f && p.1@ == b@.skip(n as int) && n
                <= b@.len(),
            None => r is None,
        },
{
    proof {
        lemma_groups_length(b@, 10);
    }
    match take_key(b) {
        None => None,
        Some((tag, wire_type, rest)) => {
            proof {
                lemma_value_length(rest@, wire_type, tag, budget as nat);
                lemma_groups_length(rest@, 10);
            }
            match skip_value(rest, wire_type, tag, budget) {
                None => None,
                Some(tail) => {
                    assert(tail@ =~= b@.skip(field_at(b@, budget as nat).unwrap().1 as int));
                    if wire_type == 0 {
                        match take_varint(rest) {
                            Some((v, _)) => Some((Field { tag, value: FieldValue::Varint(v) }, tail)),
                            None => None,
                        }
                    } else if wire_type == 2 {
                        match take_varint(rest) {
                            Some((len, body)) => {
                                let available: usize = body.len();
                                assert(len <= available);
                                let bytes: Vec<u8> = vstd::slice::slice_to_vec(
                                    slice_subrange(body, 0, len as usize),
                                );
                                assert(bytes@ =~= rest@.subrange(
                                    delimited_at(rest@).unwrap().0 as int,
                                    delimited_at(rest@).unwrap().1 as int,
                                ));
                                Some((Field { tag, value: FieldValue::Bytes(bytes) }, tail))
                            },
                            None => None,
                        }
                    } else {
                        Some((Field { tag, value: FieldValue::Opaque }, tail))
                    }
                },
            }
        },
    }
}

/// Splits a message into its fields.
pub fn parse_fields(b: &[u8], budget: u32) -> (r: Option<Vec<Field>>)
    ensures
        match fields_of(b@, budget as nat) {
            Some(fs) => r matches Some(v) && fields_view(v@) == fs,
            None => r is None,
        },
{
    let mut out: Vec<Field> = Vec::new();
    let mut rest: &[u8] = b;
    while rest.len() > 0
        invariant
            match fields_of(rest@, budget as nat) {
                Some(fs) => fields_of(b@, budget as nat) == Some(fields_view(out@) + fs),
                None => fields_of(b@, budget as nat) is None,
            },
        decreases rest@.len(),
    {
        proof {
            lemma_groups_length(rest@, 10);
        }
        match take_field(rest, budget) {
            None => {
                return None;
            },
            Some((field, tail)) => {
                let ghost before = out@;
                out.push(field);
                proof {
                    assert(fields_view(out@) =~= fields_view(before).push(field@));
                    if let Some(fs) = fields_of(tail@, budget as nat) {
                        assert(fields_view(before) + (seq![field@] + fs) =~= fields_view(out@) + fs);
                    }
                }
                rest = tail;
            },
        }
    }
    proof {
        assert(fields_view(out@) + Seq::<WireField>::empty() =~= fields_view(out@));
    }
    Some(out)
}

// ---------------------------------------------------------------------------------------------
// Writing
// ---------------------------------------------------------------------------------------------
/// The bytes of tag and wire type.
pub open spec fn key_bytes(tag: u32, wire_type: u8) -> Seq<u8> {
    varint_bytes((tag * 8 + wire_type) as u64)
}

/// The bytes of a field.
pub open spec fn field_bytes(f: WireField) -> Seq<u8> {
    match f.value {
        WireValue::Varint(v) => key_bytes(f.tag, 0) + varint_bytes(v),
        WireValue::Bytes(b) => key_bytes(f.tag, 2) + varint_bytes(b.len() as u64) + b,
        WireValue::Opaque => seq![],
    }
}

/// The bytes of a message, field after field.
pub open spec fn wire_bytes(fs: Seq<WireField>) -> Seq<u8>
    decreases fs.len(),
{
    if fs.len() == 0 {
        seq![]
    } else {
        wire_bytes(fs.drop_last()) + field_bytes(fs.last())
    }
}

/// A field with a tag in the legal range that carries a number or a run of bytes.
pub open spec fn writable(f: WireField) -> bool {
    1 <= f.tag < 0x2000_0000 && match f.value {
        WireValue::Varint(_) => true,
        WireValue::Bytes(b) => b.len() <= u64::MAX,
        WireValue::Opaque => false,
    }
}

/// A field with a tag in the legal range that carries a number or a run of bytes.
pub open spec fn is_legal(f: WireField) -> bool {
    1 <= f.tag < 0x2000_0000 && !(f.value is Opaque)
}

/// Appends a field that carries a number.
pub fn push_number(out: &mut Vec<u8>, tag: u32, v: u64)
    requires
        1 <= tag < 0x2000_0000,
    ensures
        final(out)@ == old(out)@ + field_bytes(WireField { tag, value: WireValue::Varint(v) }),
{
    push_varint(out, tag as u64 * 8);
    push_varint(out, v);
    assert(out@ =~= old(out)@ + (key_bytes(tag, 0) + varint_bytes(v)));
}

/// Appends a field that carries a run of bytes.
pub fn push_bytes(out: &mut Vec<u8>, tag: u32, bytes: &[u8])
    requires
        1 <= tag < 0x2000_0000,
    ensures
        final(out)@ == old(out)@ + field_bytes(WireField { tag, value: WireValue::Bytes(bytes@) }),
{
    push_varint(out, tag as u64 * 8 + 2);
    push_varint(out, bytes.len() as u64);
    out.extend_from_slice(bytes);
    assert(out@ =~= old(out)@ + (key_bytes(tag, 2) + varint_bytes(bytes@.len() as u64) + bytes@));
}

// ---------------------------------------------------------------------------------------------
// Writing, then reading
// ---------------------------------------------------------------------------------------------
spec fn groups_bound(limit: nat) -> nat
    decreases limit,
{
    if limit == 0 {
        1
    } else {
        0x80 * groups_bound((limit - 1) as nat)
    }
}

proof fn lemma_groups_read_back(v: u64, rest: Seq<u8>, limit: nat)
    requires
        v < groups_bound(limit),
        limit > 0,
    ensures
        groups_at(varint_bytes(v) + rest, limit) == Some((v as nat, varint_bytes(v).len())),
    decreases limit,
{
    let b = varint_bytes(v) + rest;
    if v < 0x80 {
        assert(b[0] == v as u8);
    } else {
        let high = v / 0x80;
        let smaller = (limit - 1) as nat;
        assert(b[0] == (v % 0x80 + 0x80) as u8);
        assert(b.skip(1) =~= varint_bytes(high) + rest);
        assert(high < groups_bound(smaller));
        if smaller == 0 {
            assert(false);
        }
        lemma_groups_read_back(high, rest, smaller);
    }
}

/// A number that was written is read back, whatever follows it.
pub proof fn varint_round_trip(v: u64, rest: Seq<u8>)
    ensures
        varint_at(varint_bytes(v) + rest) == Some((v, varint_bytes(v).len())),
{
    reveal_with_fuel(groups_bound, 11);
    lemma_groups_read_back(v, rest, 10);
}

/// A field that was written is read back, whatever follows it.
#[verifier::rlimit(40)]
pub proof fn lemma_field_read_back(f: WireField, rest: Seq<u8>, budget: nat)
    requires
        writable(f),
        budget > 0,
    ensures
        field_at(field_bytes(f) + rest, budget) == Some((f, field_bytes(f).len())),
        field_bytes(f).len() > 0,
{
    let b = field_bytes(f) + rest;
    match f.value {
        WireValue::Varint(v) => {
            let key = key_bytes(f.tag, 0);
            let tail = varint_bytes(v) + rest;
            assert(b =~= key + tail);
            varint_round_trip((f.tag * 8) as u64, tail);
            lemma_groups_length(b, 10);
            assert(b.skip(key.len() as int) =~= tail);
            varint_round_trip(v, rest);
        },
        WireValue::Bytes(bytes) => {
            let key = key_bytes(f.tag, 2);
            let length = varint_bytes(bytes.len() as u64);
            let tail = length + (bytes + rest);
            assert(b =~= key + tail);
            varint_round_trip((f.tag * 8 + 2) as u64, tail);
            lemma_groups_length(b, 10);
            assert(b.skip(key.len() as int) =~= tail);
            varint_round_trip(bytes.len() as u64, bytes + rest);
            assert(tail.subrange(length.len() as int, (length.len() + bytes.len()) as int) =~= bytes);
        },
        WireValue::Opaque => {},
    }
}

/// The bytes of two runs of fields stand one behind the other.
pub proof fn wire_bytes_concat(a: Seq<WireField>, b: Seq<WireField>)
    ensures
        wire_bytes(a + b) == wire_bytes(a) + wire_bytes(b),
    decreases b.len(),
{
    if b.len() == 0 {
        assert(a + b =~= a);
        assert(wire_bytes(a) + wire_bytes(b) =~= wire_bytes(a));
    } else {
        assert((a + b).drop_last() =~= a + b.drop_last());
        wire_bytes_concat(a, b.drop_last());
        assert(wire_bytes(a + b) =~= wire_bytes(a) + wire_bytes(b));
    }
}

/// Appending the bytes of one run of fields, then those of another, is appending the bytes of both.
pub proof fn lemma_joined(start: Seq<u8>, a: Seq<WireField>, b: Seq<WireField>)
    ensures
        (start + wire_bytes(a)) + wire_bytes(b) == start + wire_bytes(a + b),
{
    wire_bytes_concat(a, b);
    assert((start + wire_bytes(a)) + wire_bytes(b) =~= start + (wire_bytes(a) + wire_bytes(b)));
}

/// The bytes of fields begin with those of the first field.
pub proof fn lemma_wire_bytes_front(fs: Seq<WireField>)
    requires
        fs.len() > 0,
    ensures
        wire_bytes(fs) == field_bytes(fs[0]) + wire_bytes(fs.drop_first()),
    decreases fs.len(),
{
    if fs.len() == 1 {
        assert(wire_bytes(fs.drop_last()) =~= seq![]);
        assert(wire_bytes(fs.drop_first()) =~= seq![]);
        assert(fs.last() == fs[0]);
        assert(wire_bytes(fs) =~= field_bytes(fs[0]));
        assert(field_bytes(fs[0]) + wire_bytes(fs.drop_first()) =~= field_bytes(fs[0]));
    } else {
        lemma_wire_bytes_front(fs.drop_last());
        assert(fs.drop_last().drop_first() =~= fs.drop_first().drop_last());
        assert(wire_bytes(fs) =~= field_bytes(fs[0]) + wire_bytes(fs.drop_first()));
    }
}

/// A run of bytes is no longer than the message that it is part of.
pub proof fn lemma_inside(fs: Seq<WireField>, f: WireField, i: nat)
    requires
        0 <= i < fs.len(),
        fs[i as int] == f,
    ensures
        f.value matches WireValue::Bytes(b) ==> b.len() <= wire_bytes(fs).len(),
    decreases fs.len(),
{
    if i < fs.len() - 1 {
        lemma_inside(fs.drop_last(), f, i);
    }
}

/// The fields of a message of limited length can be written.
pub proof fn lemma_writable(fs: Seq<WireField>)
    requires
        wire_bytes(fs).len() <= u64::MAX,
        forall|i: int| 0 <= i < fs.len() ==> is_legal(#[trigger] fs[i]),
    ensures
        forall|i: int| 0 <= i < fs.len() ==> writable(#[trigger] fs[i]),
{
    assert forall|i: int| 0 <= i < fs.len() implies writable(#[trigger] fs[i]) by {
        assert(is_legal(fs[i]));
        lemma_inside(fs, fs[i], i as nat);
    }
}

/// Fields that were written are read back: the bytes of a message split into exactly the fields
/// that they were made of.
pub proof fn wire_round_trip(fs: Seq<WireField>, budget: nat)
    requires
        budget > 0,
        forall|i: int| 0 <= i < fs.len() ==> writable(#[trigger] fs[i]),
    ensures
        fields_of(wire_bytes(fs), budget) == Some(fs),
    decreases fs.len(),
{
    if fs.len() > 0 {
        let rest = fs.drop_first();
        lemma_wire_bytes_front(fs);
        lemma_field_read_back(fs[0], wire_bytes(rest), budget);
        assert(wire_bytes(fs).skip(field_bytes(fs[0]).len() as int) =~= wire_bytes(rest));
        wire_round_trip(rest, budget);
        assert(seq![fs[0]] + rest =~= fs);
    } else {
        assert(fs =~= seq![]);
    }
}

} // verus!
