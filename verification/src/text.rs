//! Text helpers: every function states its result over the characters of its arguments.
use vstd::prelude::*;
use vstd::string::{StrSliceExecFns, StringExecFns};

verus! {

/// `String::push` of the standard library appends one character.
pub assume_specification[ String::push ](s: &mut String, c: char)
    ensures
        final(s)@ == old(s)@.push(c),
;

/// The characters of a text, one by one.
pub fn chars_of(s: &str) -> (v: Vec<char>)
    ensures
        v@ == s@,
{
    let mut v: Vec<char> = Vec::new();
    for c in it: s.chars()
        invariant
            it.seq() == s@,
            v@ == it.seq().take(it.index()),
    {
        v.push(c);
    }
    v
}

/// Whether `prefix` is how `s` begins.
pub open spec fn has_prefix(s: Seq<char>, prefix: Seq<char>) -> bool {
    prefix.len() <= s.len() && s.take(prefix.len() as int) == prefix
}

/// Whether the characters of `needle` stand one after the other somewhere in `s`.
pub open spec fn has_infix(s: Seq<char>, needle: Seq<char>) -> bool {
    exists|i: int| #[trigger] occurs_at(s, needle, i)
}

/// Whether `needle` stands in `s` from position `i` on.
pub open spec fn occurs_at(s: Seq<char>, needle: Seq<char>, i: int) -> bool {
    0 <= i && i + needle.len() <= s.len() && s.subrange(i, i + needle.len()) == needle
}

fn occurs(s: &Vec<char>, needle: &Vec<char>, at: usize) -> (r: bool)
    requires
        at + needle@.len() <= s@.len(),
    ensures
        r == occurs_at(s@, needle@, at as int),
{
    let total: usize = s.len();
    let mut k: usize = 0;
    while k < needle.len()
        invariant
            total == s@.len(),
            at + needle@.len() <= s@.len(),
            k <= needle@.len(),
            forall|j: int| 0 <= j < k ==> s@[at + j] == needle@[j],
        decreases needle@.len() - k,
    {
        if s[at + k] != needle[k] {
            assert(s@.subrange(at as int, at + needle@.len())[k as int] != needle@[k as int]);
            return false;
        }
        k = k + 1;
    }
    assert(s@.subrange(at as int, at + needle@.len()) =~= needle@);
    true
}

/// Whether `s` begins with `prefix`.
pub fn starts_with(s: &str, prefix: &str) -> (r: bool)
    ensures
        r == has_prefix(s@, prefix@),
{
    let whole: Vec<char> = chars_of(s);
    let head: Vec<char> = chars_of(prefix);
    proof {
        assert(s@.subrange(0, prefix@.len() as int) == s@.take(prefix@.len() as int));
    }
    head.len() <= whole.len() && occurs(&whole, &head, 0)
}

/// Whether `needle` occurs in `s`.
pub fn contains(s: &str, needle: &str) -> (r: bool)
    ensures
        r == has_infix(s@, needle@),
{
    let whole: Vec<char> = chars_of(s);
    let part: Vec<char> = chars_of(needle);
    if part.len() > whole.len() {
        return false;
    }
    let last: usize = whole.len() - part.len();
    let mut i: usize = 0;
    while i < last
        invariant
            whole@ == s@,
            part@ == needle@,
            last == whole@.len() - part@.len(),
            i <= last,
            forall|j: int| 0 <= j < i ==> !#[trigger] occurs_at(s@, needle@, j),
        decreases last - i,
    {
        if occurs(&whole, &part, i) {
            return true;
        }
        i = i + 1;
    }
    occurs(&whole, &part, last)
}

/// The characters behind the first `c`, if there is one.
pub open spec fn chars_after(s: Seq<char>, c: char) -> Option<Seq<char>>
    decreases s.len(),
{
    if s.len() == 0 {
        None
    } else if s[0] == c {
        Some(s.skip(1))
    } else {
        chars_after(s.skip(1), c)
    }
}

/// Of a text that is taken apart at a character, what stands behind is what was put there.
pub proof fn lemma_chars_after(head: Seq<char>, c: char, tail: Seq<char>)
    requires
        !head.contains(c),
    ensures
        chars_after(head + seq![c] + tail, c) == Some(tail),
    decreases head.len(),
{
    let whole = head + seq![c] + tail;
    if head.len() == 0 {
        assert(whole.skip(1) =~= tail);
    } else {
        assert(head.contains(head[0]));
        assert(whole[0] == head[0]);
        assert(whole.skip(1) =~= head.skip(1) + seq![c] + tail);
        assert forall|i: int| 0 <= i < head.skip(1).len() implies head.skip(1)[i] != c by {
            assert(head.contains(head[i + 1]));
        }
        lemma_chars_after(head.skip(1), c, tail);
    }
}

/// The text behind the first `c`, if there is one.
pub fn after_first(s: &str, c: char) -> (r: Option<String>)
    ensures
        match r {
            Some(text) => chars_after(s@, c) == Some(text@),
            None => chars_after(s@, c) is None,
        },
{
    let chars: Vec<char> = chars_of(s);
    let mut i: usize = 0;
    assert(chars@.skip(0) =~= s@);
    while i < chars.len()
        invariant
            chars@ == s@,
            i <= chars@.len(),
            chars_after(s@, c) == chars_after(chars@.skip(i as int), c),
        decreases chars@.len() - i,
    {
        if chars[i] == c {
            let mut text: String = String::new();
            let mut k: usize = i + 1;
            while k < chars.len()
                invariant
                    i + 1 <= k <= chars@.len(),
                    text@ == chars@.subrange(i + 1, k as int),
                decreases chars@.len() - k,
            {
                text.push(chars[k]);
                k = k + 1;
                assert(text@ =~= chars@.subrange(i + 1, k as int));
            }
            assert(text@ =~= chars@.skip(i as int).skip(1));
            return Some(text);
        }
        assert(chars@.skip(i as int).skip(1) =~= chars@.skip(i + 1));
        i = i + 1;
    }
    None
}

/// The digit `n`, which is below ten.
pub open spec fn digit(n: nat) -> char {
    (48 + n) as char
}

/// `n` in decimal, without leading zeros.
pub open spec fn decimal(n: nat) -> Seq<char>
    decreases n,
{
    if n < 10 {
        seq![digit(n)]
    } else {
        decimal(n / 10).push(digit(n % 10))
    }
}

/// A number below a hundred thousand has at most five digits, one below a thousand at most three.
pub proof fn lemma_decimal_length(n: nat)
    requires
        n < 100000,
    ensures
        1 <= decimal(n).len() <= 5,
        n < 1000 ==> decimal(n).len() <= 3,
{
    reveal_with_fuel(decimal, 5);
}

/// Appends `n` in decimal.
pub fn push_decimal(out: &mut String, n: u64)
    ensures
        final(out)@ == old(out)@ + decimal(n as nat),
    decreases n,
{
    if n >= 10 {
        push_decimal(out, n / 10);
    }
    let d: u8 = 48 + (n % 10) as u8;
    out.push(d as char);
    proof {
        assert(n < 10 ==> n % 10 == n);
        assert(old(out)@ + decimal(n as nat) =~= out@);
    }
}

/// One hexadecimal digit in lower case.
pub open spec fn hex_digit(n: u8) -> char {
    if n < 10 {
        (48 + n) as char
    } else {
        (87 + n) as char
    }
}

/// Every byte as two hexadecimal digits in lower case, the high one first.
pub open spec fn hex_text(bytes: Seq<u8>) -> Seq<char>
    decreases bytes.len(),
{
    if bytes.len() == 0 {
        seq![]
    } else {
        hex_text(bytes.drop_last()) + seq![
            hex_digit(bytes.last() / 16),
            hex_digit(bytes.last() % 16),
        ]
    }
}

/// A byte takes two digits.
pub proof fn lemma_hex_length(bytes: Seq<u8>)
    ensures
        hex_text(bytes).len() == 2 * bytes.len(),
    decreases bytes.len(),
{
    if bytes.len() > 0 {
        lemma_hex_length(bytes.drop_last());
    }
}

fn hex_char(n: u8) -> (c: char)
    requires
        n < 16,
    ensures
        c == hex_digit(n),
{
    let d: u8 = if n < 10 {
        48 + n
    } else {
        87 + n
    };
    d as char
}

/// The first `count` bytes, or all of them if there are fewer, in hexadecimal.
pub fn hex_prefix(bytes: &[u8], count: usize) -> (s: String)
    ensures
        s@ == hex_text(bytes@.take(if count < bytes@.len() { count as int } else { bytes@.len() as int })),
{
    let mut s: String = String::new();
    let n: usize = if count < bytes.len() {
        count
    } else {
        bytes.len()
    };
    let mut i: usize = 0;
    while i < n
        invariant
            i <= n <= bytes@.len(),
            s@ == hex_text(bytes@.take(i as int)),
        decreases n - i,
    {
        let b: u8 = bytes[i];
        s.push(hex_char(b / 16));
        s.push(hex_char(b % 16));
        proof {
            assert(bytes@.take(i + 1).drop_last() =~= bytes@.take(i as int));
            assert(s@ =~= hex_text(bytes@.take(i + 1)));
        }
        i = i + 1;
    }
    s
}

/// The characters with the Unicode property White_Space.
pub open spec fn is_white_space(c: char) -> bool {
    ||| 0x9 <= c as u32 <= 0xd
    ||| c as u32 == 0x20
    ||| c as u32 == 0x85
    ||| c as u32 == 0xa0
    ||| c as u32 == 0x1680
    ||| 0x2000 <= c as u32 <= 0x200a
    ||| c as u32 == 0x2028
    ||| c as u32 == 0x2029
    ||| c as u32 == 0x202f
    ||| c as u32 == 0x205f
    ||| c as u32 == 0x3000
}

fn white_space(c: char) -> (r: bool)
    ensures
        r == is_white_space(c),
{
    let u: u32 = c as u32;
    (0x9 <= u && u <= 0xd) || u == 0x20 || u == 0x85 || u == 0xa0 || u == 0x1680 || (0x2000 <= u
        && u <= 0x200a) || u == 0x2028 || u == 0x2029 || u == 0x202f || u == 0x205f || u == 0x3000
}

/// `s` without its leading white space.
pub open spec fn without_leading_space(s: Seq<char>) -> Seq<char>
    decreases s.len(),
{
    if s.len() > 0 && is_white_space(s.first()) {
        without_leading_space(s.drop_first())
    } else {
        s
    }
}

/// `s` without its trailing white space.
pub open spec fn without_trailing_space(s: Seq<char>) -> Seq<char>
    decreases s.len(),
{
    if s.len() > 0 && is_white_space(s.last()) {
        without_trailing_space(s.drop_last())
    } else {
        s
    }
}

/// `s` without leading and trailing white space.
pub open spec fn trimmed(s: Seq<char>) -> Seq<char> {
    without_trailing_space(without_leading_space(s))
}

/// Removes leading and trailing white space.
pub fn trim<'a>(s: &'a str) -> (r: &'a str)
    ensures
        r@ == trimmed(s@),
{
    let chars: Vec<char> = chars_of(s);
    let n: usize = chars.len();
    let mut from: usize = 0;
    proof {
        assert(s@.subrange(0, n as int) =~= s@);
    }
    while from < n && white_space(chars[from])
        invariant
            chars@ == s@,
            n == s@.len(),
            from <= n,
            without_leading_space(s@.subrange(from as int, n as int)) == without_leading_space(s@),
        decreases n - from,
    {
        proof {
            assert(s@.subrange(from as int, n as int).drop_first() =~= s@.subrange(from + 1, n as int));
        }
        from = from + 1;
    }
    proof {
        assert(without_leading_space(s@) == s@.subrange(from as int, n as int));
    }
    let ghost core = s@.subrange(from as int, n as int);
    let mut to: usize = n;
    while from < to && white_space(chars[to - 1])
        invariant
            chars@ == s@,
            n == s@.len(),
            from <= to <= n,
            without_trailing_space(s@.subrange(from as int, to as int)) == without_trailing_space(core),
        decreases to,
    {
        proof {
            assert(s@.subrange(from as int, to as int).drop_last() =~= s@.subrange(from as int, to - 1));
        }
        to = to - 1;
    }
    s.substring_char(from, to)
}

/// The text that the bytes hold in UTF-8; nothing if they are not valid UTF-8. This is
/// `String::from_utf8` of the standard library, which is documented to accept exactly valid
/// UTF-8.
#[verifier::external_body]
pub(crate) fn text_from_utf8(bytes: &[u8]) -> (r: Option<String>)
    ensures
        r is Some <==> vstd::utf8::valid_utf8(bytes@),
        r matches Some(s) ==> s@ == vstd::utf8::decode_utf8(bytes@),
{
    String::from_utf8(bytes.to_vec()).ok()
}

} // verus!
