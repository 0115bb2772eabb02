//! Texts: white space, lists and decimal numbers.
use vstd::prelude::*;

use crate::text::{
    digits, digits_value, int_text, is_control_char, is_white_space, lemma_split_nonempty, nonblank,
    occurs, split, trim, trim_end, trim_start, unsigned_value,
};

verus! {

// ---------------------------------------------------------------------------
// White space
// ---------------------------------------------------------------------------
/// Tab, line feed, vertical tab, form feed, carriage return and space are white
/// space, and no other character of ASCII is.
pub proof fn lemma_ascii_white_space(c: char)
    requires
        c as u32 <= 0x7f,
    ensures
        is_white_space(c) <==> c == '\t' || c == '\n' || c == '\r' || c == ' ' || c as u32 == 0x0b
            || c as u32 == 0x0c,
{
}

/// Beyond ASCII these are white space: next line, the no-break spaces, the Ogham
/// space, the spaces of the block of general punctuation, its separators of
/// lines and paragraphs, the mathematical space and the ideographic space.
pub proof fn lemma_other_white_space(c: char)
    requires
        c as u32 > 0x7f,
    ensures
        is_white_space(c) <==> c as u32 == 0x85 || c as u32 == 0xa0 || c as u32 == 0x1680 || (
        0x2000 <= c as u32 && c as u32 <= 0x200a) || c as u32 == 0x2028 || c as u32 == 0x2029
            || c as u32 == 0x202f || c as u32 == 0x205f || c as u32 == 0x3000,
{
}

/// The control characters are those below the space, delete, and the 32 that
/// follow it.
pub proof fn lemma_control_characters(c: char)
    ensures
        is_control_char(c) <==> (c as u32) < 0x20 || 0x7f <= c as u32 && (c as u32) < 0xa0,
{
}

/// Whether all characters of a text are white space.
pub open spec fn is_blank(s: Seq<char>) -> bool {
    forall|i: int| 0 <= i < s.len() ==> is_white_space(#[trigger] s[i])
}

proof fn lemma_trim_start(s: Seq<char>)
    ensures
        ({
            let t = trim_start(s);
            let a = s.len() - t.len();
            &&& 0 <= a <= s.len()
            &&& t == s.subrange(a, s.len() as int)
            &&& is_blank(s.subrange(0, a))
            &&& t.len() > 0 ==> !is_white_space(t[0])
        }),
    decreases s.len(),
{
    if s.len() > 0 && is_white_space(s[0]) {
        let rest = s.drop_first();
        lemma_trim_start(rest);
        let t = trim_start(s);
        let a = s.len() - t.len();
        assert(t =~= s.subrange(a, s.len() as int));
        assert forall|i: int| 0 <= i < a implies is_white_space(
            #[trigger] s.subrange(0, a)[i],
        ) by {
            if i > 0 {
                assert(rest.subrange(0, a - 1)[i - 1] == s.subrange(0, a)[i]);
            }
        }
    } else {
        assert(s =~= s.subrange(0, s.len() as int));
    }
}

proof fn lemma_trim_end(s: Seq<char>)
    ensures
        ({
            let t = trim_end(s);
            let b = t.len() as int;
            &&& b <= s.len()
            &&& t == s.subrange(0, b)
            &&& is_blank(s.subrange(b, s.len() as int))
            &&& t.len() > 0 ==> !is_white_space(t.last())
        }),
    decreases s.len(),
{
    if s.len() > 0 && is_white_space(s.last()) {
        let rest = s.drop_last();
        lemma_trim_end(rest);
        let t = trim_end(s);
        let b = t.len() as int;
        assert(t =~= s.subrange(0, b));
        assert forall|i: int| 0 <= i < s.len() - b implies is_white_space(
            #[trigger] s.subrange(b, s.len() as int)[i],
        ) by {
            if i < rest.len() - b {
                assert(rest.subrange(b, rest.len() as int)[i] == s.subrange(b, s.len() as int)[i]);
            }
        }
    } else {
        assert(s =~= s.subrange(0, s.len() as int));
    }
}

/// A trimmed text is the part of the text between the white space at its start
/// and the white space at its end: what is cut off on either side is blank, and
/// what is left neither starts nor ends with white space.
pub proof fn lemma_trimmed(s: Seq<char>)
    ensures
        exists|a: int, b: int|
            0 <= a <= b <= s.len() && #[trigger] s.subrange(a, b) == trim(s) && is_blank(
                s.subrange(0, a),
            ) && is_blank(s.subrange(b, s.len() as int)),
        trim(s).len() > 0 ==> !is_white_space(trim(s)[0]) && !is_white_space(trim(s).last()),
        trim(s).len() == 0 <==> is_blank(s),
{
    let left = trim_start(s);
    let t = trim(s);
    lemma_trim_start(s);
    lemma_trim_end(left);
    let a = s.len() - left.len();
    let b = a + t.len();
    assert(s.subrange(a, b) =~= t);
    assert forall|i: int| 0 <= i < s.len() - b implies is_white_space(
        #[trigger] s.subrange(b, s.len() as int)[i],
    ) by {
        assert(left.subrange(t.len() as int, left.len() as int)[i] == s.subrange(
            b,
            s.len() as int,
        )[i]);
    }
    if t.len() > 0 {
        assert(t[0] == left[0]);
        assert(s[a] == t[0]);
    } else {
        assert forall|i: int| 0 <= i < s.len() implies is_white_space(#[trigger] s[i]) by {
            if i < a {
                assert(s.subrange(0, a)[i] == s[i]);
            } else {
                assert(s.subrange(b, s.len() as int)[i - b] == s[i]);
            }
        }
    }
}

// ---------------------------------------------------------------------------
// Lists
// ---------------------------------------------------------------------------
/// Pieces of text with a separator between each two.
pub open spec fn joined(pieces: Seq<Seq<char>>, sep: char) -> Seq<char>
    decreases pieces.len(),
{
    if pieces.len() == 0 {
        Seq::empty()
    } else if pieces.len() == 1 {
        pieces[0]
    } else {
        joined(pieces.drop_last(), sep).push(sep) + pieces.last()
    }
}

/// The pieces of a text hold no separator, and put together again with the
/// separator between them they give the text.
pub proof fn lemma_split_pieces(s: Seq<char>, sep: char)
    ensures
        joined(split(s, sep), sep) == s,
        forall|i: int, k: int|
            0 <= i < split(s, sep).len() && 0 <= k < split(s, sep)[i].len()
                ==> #[trigger] split(s, sep)[i][k] != sep,
    decreases s.len(),
{
    let all = split(s, sep);
    if s.len() == 0 {
        assert(joined(all, sep) =~= s);
    } else {
        let rest = s.drop_last();
        let head = split(rest, sep);
        lemma_split_nonempty(rest, sep);
        lemma_split_pieces(rest, sep);
        if s.last() == sep {
            assert(all.drop_last() =~= head);
            assert(joined(all, sep) =~= joined(head, sep).push(sep));
            assert(rest.push(s.last()) =~= s);
        } else {
            assert(all.drop_last() =~= head.drop_last());
            assert(all.last() == head.last().push(s.last()));
            if head.len() == 1 {
                assert(joined(all, sep) =~= rest.push(s.last()));
            } else {
                assert(joined(all, sep) =~= joined(head, sep).push(s.last()));
            }
            assert(rest.push(s.last()) =~= s);
        }
        assert forall|i: int, k: int| 0 <= i < all.len() && 0 <= k < all[i].len() implies
            #[trigger] all[i][k] != sep by {
            if i < head.len() && k < head[i].len() {
                assert(head[i][k] != sep);
            }
        }
    }
}

/// A list keeps its entries in their order, without the white space around them
/// and without blank ones.
pub proof fn lemma_list_entries(a: Seq<Seq<char>>, b: Seq<Seq<char>>, piece: Seq<char>)
    ensures
        nonblank(a + b) == nonblank(a) + nonblank(b),
        is_blank(piece) ==> nonblank(seq![piece]) == Seq::<Seq<char>>::empty(),
        !is_blank(piece) ==> nonblank(seq![piece]) == seq![trim(piece)],
    decreases b.len(),
{
    lemma_trimmed(piece);
    let one = seq![piece];
    reveal_with_fuel(nonblank, 2);
    assert(one.drop_last() =~= Seq::<Seq<char>>::empty());
    assert(one.last() == piece);
    if is_blank(piece) {
        assert(nonblank(one) =~= Seq::<Seq<char>>::empty());
    } else {
        assert(nonblank(one) =~= seq![trim(piece)]);
    }
    if b.len() == 0 {
        assert(a + b =~= a);
        assert(nonblank(a) + nonblank(b) =~= nonblank(a));
    } else {
        lemma_list_entries(a, b.drop_last(), piece);
        assert((a + b).drop_last() =~= a + b.drop_last());
        assert((a + b).last() == b.last());
        assert(nonblank(a + b) =~= nonblank(a) + nonblank(b));
    }
}

/// A text occurs in another exactly where that one is something, the text, and
/// something more.
pub proof fn lemma_occurring(s: Seq<char>, part: Seq<char>)
    ensures
        occurs(s, part) <==> exists|before: Seq<char>, after: Seq<char>| s == #[trigger] (before
            + part + after),
{
    if occurs(s, part) {
        let i = choose|i: int|
            0 <= i <= s.len() - part.len() && #[trigger] s.subrange(i, i + part.len()) == part;
        let before = s.subrange(0, i);
        let after = s.subrange(i + part.len(), s.len() as int);
        assert(s =~= before + s.subrange(i, i + part.len()) + after);
    }
    if exists|before: Seq<char>, after: Seq<char>| s == #[trigger] (before + part + after) {
        let (before, after) = choose|before: Seq<char>, after: Seq<char>|
            s == #[trigger] (before + part + after);
        let i = before.len() as int;
        assert(s.subrange(i, i + part.len()) =~= part);
    }
}

// ---------------------------------------------------------------------------
// Decimal numbers
// ---------------------------------------------------------------------------
/// The digits below ten are the characters from zero to nine, and another digit
/// makes ten times the number and that digit.
pub proof fn lemma_decimal_digits(n: nat, d: nat)
    requires
        d < 10,
    ensures
        digits(d).len() == 1,
        digits(d)[0] as u32 == 48 + d,
        n > 0 ==> digits(10 * n + d) == digits(n) + digits(d),
{
    if n > 0 {
        let m = 10 * n + d;
        assert(m / 10 == n && m % 10 == d);
        assert(digits(m) =~= digits(n) + digits(d));
    }
}

/// The number of a text of digits: another digit makes ten times the number and
/// that digit.
pub proof fn lemma_value_of_digits(s: Seq<char>, c: char)
    requires
        '0' <= c <= '9',
    ensures
        digits_value(Seq::<char>::empty()) == 0,
        digits_value(s.push(c)) == 10 * digits_value(s) + (c as u32 - 48),
{
    assert(s.push(c).drop_last() =~= s);
}

/// Whether a text is digits, at least one.
pub open spec fn all_digits(s: Seq<char>) -> bool {
    s.len() > 0 && forall|i: int| 0 <= i < s.len() ==> '0' <= #[trigger] s[i] && s[i] <= '9'
}

proof fn lemma_all_digits(s: Seq<char>)
    ensures
        all_digits(s) <==> crate::text::is_number(s),
{
    if all_digits(s) {
        assert forall|i: int| 0 <= i < s.len() implies crate::text::is_digit(#[trigger] s[i]) by {
        }
    }
    if crate::text::is_number(s) {
        assert forall|i: int| 0 <= i < s.len() implies '0' <= #[trigger] s[i] && s[i] <= '9' by {
            assert(crate::text::is_digit(s[i]));
        }
    }
}

/// A text is a number of at most `max` exactly where it is digits, at least one,
/// with or without a plus sign in front, and their value is no more than that.
pub proof fn lemma_when_a_text_is_a_number(s: Seq<char>, max: nat)
    ensures
        s.len() > 0 && s[0] == '+' ==> {
            let body = s.subrange(1, s.len() as int);
            unsigned_value(s, max) == (if all_digits(body) && digits_value(body) <= max {
                Some(digits_value(body))
            } else {
                None
            })
        },
        s.len() == 0 || s[0] != '+' ==> unsigned_value(s, max) == (if all_digits(s)
            && digits_value(s) <= max {
            Some(digits_value(s))
        } else {
            None
        }),
{
    if s.len() > 0 && s[0] == '+' {
        assert(s.drop_first() =~= s.subrange(1, s.len() as int));
    }
    lemma_all_digits(crate::text::unsigned_body(s));
}

/// A negative number is written as its opposite behind a minus sign.
pub proof fn lemma_written_integers(n: int)
    ensures
        n >= 0 ==> int_text(n) == digits(n as nat),
        n < 0 ==> int_text(n) == seq!['-'] + int_text(-n),
{
}

} // verus!
