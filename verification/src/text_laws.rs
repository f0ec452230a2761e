//! What the text helpers can be relied on to do.
use vstd::prelude::*;

use crate::text::{
    chars_after, decimal, has_infix, has_prefix, hex_text, is_white_space, lemma_chars_after,
    occurs_at, trimmed, without_leading_space, without_trailing_space,
};

verus! {

/// A text begins with another exactly if it is that text and something behind it, and holds another
/// exactly if it is that text with something on both sides.
pub proof fn parts_of_texts_are_found(s: Seq<char>, part: Seq<char>)
    ensures
        has_prefix(s, part) <==> exists|rest: Seq<char>| s == #[trigger] (part + rest),
        has_infix(s, part) <==> exists|before: Seq<char>, behind: Seq<char>|
            s == #[trigger] (before + part + behind),
{
    if has_prefix(s, part) {
        assert(s =~= part + s.skip(part.len() as int));
    }
    assert forall|rest: Seq<char>| s == #[trigger] (part + rest) implies has_prefix(s, part) by {
        assert(s.take(part.len() as int) =~= part);
    }
    if has_infix(s, part) {
        let i = choose|i: int| #[trigger] occurs_at(s, part, i);
        assert(s =~= s.take(i) + part + s.skip(i + part.len())) by {
            assert(s.subrange(i, i + part.len()) == part);
            assert(forall|k: int|
                0 <= k < part.len() ==> part[k] == s.subrange(i, i + part.len())[k]);
        }
    }
    assert forall|before: Seq<char>, behind: Seq<char>|
        s == #[trigger] (before + part + behind) implies has_infix(s, part) by {
        assert(s.subrange(before.len() as int, (before.len() + part.len()) as int) =~= part);
        assert(occurs_at(s, part, before.len() as int));
    }
}

/// A text is taken apart at the first place where the character stands, if it stands anywhere.
pub proof fn texts_are_taken_apart_at_the_first_place(
    s: Seq<char>,
    c: char,
    head: Seq<char>,
    tail: Seq<char>,
)
    ensures
        chars_after(s, c) is None <==> !s.contains(c),
        !head.contains(c) ==> chars_after(head + seq![c] + tail, c) == Some(tail),
    decreases s.len(),
{
    if !head.contains(c) {
        lemma_chars_after(head, c, tail);
    }
    if s.len() > 0 {
        if s[0] == c {
            assert(s.contains(c));
        } else {
            texts_are_taken_apart_at_the_first_place(s.skip(1), c, head, tail);
            if s.contains(c) {
                let i = choose|i: int| 0 <= i < s.len() && s[i] == c;
                assert(s.skip(1)[i - 1] == c);
            }
            if s.skip(1).contains(c) {
                let i = choose|i: int| 0 <= i < s.skip(1).len() && s.skip(1)[i] == c;
                assert(s[i + 1] == c);
            }
        }
    }
}

/// The number that decimal digits stand for.
pub open spec fn decimal_value(digits: Seq<char>) -> int
    decreases digits.len(),
{
    if digits.len() == 0 {
        0
    } else {
        10 * decimal_value(digits.drop_last()) + (digits.last() as int - '0' as int)
    }
}

/// A number in decimal stands for that number. It is made of digits, and only the number zero
/// begins with the digit zero.
pub proof fn decimals_read_back(n: nat)
    ensures
        decimal_value(decimal(n)) == n,
        decimal(n).len() >= 1,
        forall|i: int| 0 <= i < decimal(n).len() ==> '0' <= #[trigger] decimal(n)[i] <= '9',
        n > 0 ==> decimal(n)[0] != '0',
        n == 0 ==> decimal(n).len() == 1,
    decreases n,
{
    if n < 10 {
        reveal_with_fuel(decimal_value, 2);
        assert(decimal(n).drop_last() =~= seq![]);
    } else {
        decimals_read_back(n / 10);
        assert(decimal(n).drop_last() =~= decimal(n / 10));
    }
}

/// The number that a hexadecimal digit in lower case stands for.
pub open spec fn hex_value(c: char) -> int {
    if '0' <= c <= '9' {
        c as int - '0' as int
    } else if 'a' <= c <= 'f' {
        c as int - 'a' as int + 10
    } else {
        -1
    }
}

/// Whether two characters spell a byte in hexadecimal, the high digit first.
pub open spec fn spells(high: char, low: char, byte: u8) -> bool {
    &&& 0 <= hex_value(high) < 16
    &&& 0 <= hex_value(low) < 16
    &&& byte == 16 * hex_value(high) + hex_value(low)
}

/// Bytes in hexadecimal have two digits each, in order, which stand for the byte.
pub proof fn hexadecimals_read_back(bytes: Seq<u8>)
    ensures
        hex_text(bytes).len() == 2 * bytes.len(),
        forall|i: int|
            0 <= i < bytes.len() ==> spells(
                hex_text(bytes)[2 * i],
                hex_text(bytes)[2 * i + 1],
                #[trigger] bytes[i],
            ),
    decreases bytes.len(),
{
    if bytes.len() > 0 {
        let init = bytes.drop_last();
        hexadecimals_read_back(init);
        assert forall|i: int| 0 <= i < bytes.len() implies spells(
            hex_text(bytes)[2 * i],
            hex_text(bytes)[2 * i + 1],
            #[trigger] bytes[i],
        ) by {
            if i < init.len() {
                assert(bytes[i] == init[i]);
                assert(hex_text(bytes)[2 * i] == hex_text(init)[2 * i]);
                assert(hex_text(bytes)[2 * i + 1] == hex_text(init)[2 * i + 1]);
            }
        }
    }
}

/// White space is the tabulator and the line breaks behind it, the space, the next line, the
/// no-break space, the spaces of other widths, and the line and paragraph separators.
pub proof fn white_space_is_as_in_unicode(c: char)
    ensures
        is_white_space(c) <==> {
            ||| '\t' <= c <= '\r'
            ||| c == ' '
            ||| c == '\u{85}'
            ||| c == '\u{a0}'
            ||| c == '\u{1680}'
            ||| '\u{2000}' <= c <= '\u{200a}'
            ||| c == '\u{2028}' || c == '\u{2029}'
            ||| c == '\u{202f}'
            ||| c == '\u{205f}'
            ||| c == '\u{3000}'
        },
{
}

/// Whether a text is white space alone.
pub open spec fn is_white(s: Seq<char>) -> bool {
    forall|i: int| 0 <= i < s.len() ==> is_white_space(#[trigger] s[i])
}

proof fn lemma_leading(s: Seq<char>) -> (before: Seq<char>)
    ensures
        is_white(before),
        s == before + without_leading_space(s),
        without_leading_space(s).len() > 0 ==> !is_white_space(without_leading_space(s)[0]),
    decreases s.len(),
{
    if s.len() > 0 && is_white_space(s.first()) {
        let rest = lemma_leading(s.drop_first());
        let before = seq![s[0]] + rest;
        assert(s =~= seq![s[0]] + (rest + without_leading_space(s))) by {
            assert(s =~= seq![s[0]] + s.drop_first());
        }
        assert(s =~= before + without_leading_space(s));
        before
    } else {
        assert(s =~= Seq::<char>::empty() + s);
        Seq::empty()
    }
}

proof fn lemma_trailing(s: Seq<char>) -> (behind: Seq<char>)
    ensures
        is_white(behind),
        s == without_trailing_space(s) + behind,
        without_trailing_space(s).len() > 0 ==> !is_white_space(without_trailing_space(s).last())
            && without_trailing_space(s)[0] == s[0],
    decreases s.len(),
{
    if s.len() > 0 && is_white_space(s.last()) {
        let rest = lemma_trailing(s.drop_last());
        let behind = rest.push(s.last());
        assert(s =~= (without_trailing_space(s) + rest).push(s.last())) by {
            assert(s =~= s.drop_last().push(s.last()));
        }
        assert(s =~= without_trailing_space(s) + behind);
        behind
    } else {
        assert(s =~= s + Seq::<char>::empty());
        Seq::empty()
    }
}

/// A trimmed text is the text between white space, and neither begins nor ends with any.
pub proof fn texts_are_trimmed_on_both_sides(s: Seq<char>) -> (around: (Seq<char>, Seq<char>))
    ensures
        is_white(around.0),
        is_white(around.1),
        s == around.0 + trimmed(s) + around.1,
        trimmed(s).len() > 0 ==> !is_white_space(trimmed(s)[0]) && !is_white_space(
            trimmed(s).last(),
        ),
{
    let before = lemma_leading(s);
    let behind = lemma_trailing(without_leading_space(s));
    assert(s =~= before + trimmed(s) + behind);
    (before, behind)
}

} // verus!
