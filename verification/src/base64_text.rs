//! Bytes as text: Base64.
use base64::Engine;
use vstd::prelude::*;

verus! {

/// The character for six bits. The alphabet for addresses has its own last two characters.
pub open spec fn sextet(n: int, for_address: bool) -> char {
    if n < 26 {
        (65 + n) as char
    } else if n < 52 {
        (71 + n) as char
    } else if n < 62 {
        (n - 4) as char
    } else if n == 62 {
        if for_address {
            '-'
        } else {
            '+'
        }
    } else {
        if for_address {
            '_'
        } else {
            '/'
        }
    }
}

/// The four characters for three bytes.
pub open spec fn four_chars(a: int, b: int, c: int, for_address: bool) -> Seq<char> {
    seq![
        sextet(a / 4, for_address),
        sextet(a % 4 * 16 + b / 16, for_address),
        sextet(b % 16 * 4 + c / 64, for_address),
        sextet(c % 64, for_address),
    ]
}

/// Bytes in Base64: four characters for every three bytes. Of one or two bytes that are left over
/// at the end, two or three characters say all; the rest is filled up with `=`, except in
/// addresses.
pub open spec fn base64_text(bytes: Seq<u8>, for_address: bool) -> Seq<char>
    decreases bytes.len(),
{
    if bytes.len() == 0 {
        seq![]
    } else if bytes.len() == 1 {
        four_chars(bytes[0] as int, 0, 0, for_address).take(2) + if for_address {
            seq![]
        } else {
            seq!['=', '=']
        }
    } else if bytes.len() == 2 {
        four_chars(bytes[0] as int, bytes[1] as int, 0, for_address).take(3) + if for_address {
            seq![]
        } else {
            seq!['=']
        }
    } else {
        four_chars(bytes[0] as int, bytes[1] as int, bytes[2] as int, for_address) + base64_text(
            bytes.skip(3),
            for_address,
        )
    }
}

/// Bytes in the ordinary alphabet of Base64, filled up.
pub open spec fn base64_standard(bytes: Seq<u8>) -> Seq<char> {
    base64_text(bytes, false)
}

/// Bytes in the alphabet of Base64 that is safe in addresses, not filled up.
pub open spec fn base64_url(bytes: Seq<u8>) -> Seq<char> {
    base64_text(bytes, true)
}

/// Why a text is not in Base64.
pub uninterp spec fn base64_fault(text: Seq<char>) -> Seq<char>;

/// `base64::engine::general_purpose::STANDARD.encode`: the ordinary alphabet, with padding.
#[verifier::external_body]
pub(crate) fn encode_base64(bytes: &[u8]) -> (r: String)
    ensures
        r@ == base64_standard(bytes@),
{
    base64::engine::general_purpose::STANDARD.encode(bytes)
}

/// `base64::engine::general_purpose::URL_SAFE_NO_PAD.encode`: the alphabet for addresses, without
/// padding.
#[verifier::external_body]
pub(crate) fn encode_base64_url(bytes: &[u8]) -> (r: String)
    ensures
        r@ == base64_url(bytes@),
{
    base64::engine::general_purpose::URL_SAFE_NO_PAD.encode(bytes)
}

/// `base64::engine::general_purpose::STANDARD.decode`: the bytes whose text this is. The engine
/// demands the padding and rejects stray bits in the last character, so it accepts exactly the texts
/// that it writes. For any other text there is an error, whose message depends on the text alone.
#[verifier::external_body]
pub(crate) fn decode_base64(text: &str) -> (r: Result<Vec<u8>, String>)
    ensures
        match r {
            Ok(bytes) => text@ == base64_standard(bytes@),
            Err(e) => e@ == base64_fault(text@) && forall|bytes: Seq<u8>|
                text@ != #[trigger] base64_standard(bytes),
        },
{
    base64::engine::general_purpose::STANDARD.decode(text).map_err(|e| e.to_string())
}

/// What a text in Base64 stands for, or why it stands for nothing.
pub open spec fn base64_decoded(text: Seq<char>) -> Result<Seq<u8>, Seq<char>> {
    if exists|bytes: Seq<u8>| text == #[trigger] base64_standard(bytes) {
        Ok(choose|bytes: Seq<u8>| text == #[trigger] base64_standard(bytes))
    } else {
        Err(base64_fault(text))
    }
}

proof fn lemma_sextets(a: int, b: int, for_address: bool)
    requires
        0 <= a < 64,
        0 <= b < 64,
    ensures
        sextet(a, for_address) == sextet(b, for_address) ==> a == b,
        sextet(a, for_address) != '=',
{
}

proof fn lemma_base64_empty(bytes: Seq<u8>)
    ensures
        base64_standard(bytes).len() == 0 <==> bytes.len() == 0,
        bytes.len() > 0 ==> base64_standard(bytes).len() >= 4,
{
}

/// Two different runs of bytes never have the same text.
pub proof fn base64_is_injective(a: Seq<u8>, b: Seq<u8>)
    requires
        base64_standard(a) == base64_standard(b),
    ensures
        a == b,
    decreases a.len(),
{
    let s = base64_standard(a);
    let t = base64_standard(b);
    lemma_base64_empty(a);
    lemma_base64_empty(b);
    if a.len() == 0 {
        assert(a =~= b);
    } else {
        assert(s[0] == t[0] && s[1] == t[1] && s[2] == t[2] && s[3] == t[3]);
        let a0 = a[0] as int;
        let a1 = if a.len() > 1 { a[1] as int } else { 0 };
        let a2 = if a.len() > 2 { a[2] as int } else { 0 };
        let b0 = b[0] as int;
        let b1 = if b.len() > 1 { b[1] as int } else { 0 };
        let b2 = if b.len() > 2 { b[2] as int } else { 0 };
        lemma_sextets(a0 / 4, b0 / 4, false);
        lemma_sextets(a0 % 4 * 16 + a1 / 16, b0 % 4 * 16 + b1 / 16, false);
        lemma_sextets(a1 % 16 * 4 + a2 / 64, b1 % 16 * 4 + b2 / 64, false);
        lemma_sextets(a2 % 64, b2 % 64, false);
        if a.len() >= 3 && b.len() >= 3 {
            assert(s.skip(4) =~= base64_standard(a.skip(3)));
            assert(t.skip(4) =~= base64_standard(b.skip(3)));
            base64_is_injective(a.skip(3), b.skip(3));
            assert(a =~= a.take(3) + a.skip(3));
            assert(b =~= b.take(3) + b.skip(3));
            assert(a.take(3) =~= b.take(3));
        } else {
            assert(a =~= b);
        }
    }
}

/// What was written in Base64 is read back.
pub proof fn base64_round_trip(bytes: Seq<u8>)
    ensures
        base64_decoded(base64_standard(bytes)) == Ok::<Seq<u8>, Seq<char>>(bytes),
{
    let text = base64_standard(bytes);
    let read = choose|b: Seq<u8>| text == #[trigger] base64_standard(b);
    base64_is_injective(read, bytes);
}

/// Whether a character needs no escape in an address.
pub open spec fn is_address_char(c: char) -> bool {
    'A' <= c <= 'Z' || 'a' <= c <= 'z' || '0' <= c <= '9' || c == '-' || c == '_'
}

/// A text for addresses holds letters, digits, `-` and `_` alone, and has four characters for
/// every three bytes, rounded up.
pub proof fn address_text_is_plain(bytes: Seq<u8>)
    ensures
        base64_url(bytes).len() == (4 * bytes.len() + 2) / 3,
        forall|i: int|
            0 <= i < base64_url(bytes).len() ==> is_address_char(#[trigger] base64_url(bytes)[i]),
    decreases bytes.len(),
{
    if bytes.len() >= 3 {
        address_text_is_plain(bytes.skip(3));
    }
}

} // verus!
