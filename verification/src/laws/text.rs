//! Texts and numbers.

use crate::text::{
    digit_value, digits_value, head_len, is_white_space, lemma_head_len, pieces, split_at_first,
    trimmed, unsigned_digits, unsigned_value,
};
use vstd::arithmetic::power::pow;
use vstd::prelude::*;

verus! {

/// White space is what Unicode says it is.
pub proof fn white_space_is_that_of_unicode(c: char)
    ensures
        ({
            let code = c as u32;
            is_white_space(c) <==> 0x09 <= code <= 0x0d || code == 0x20 || code == 0x85 || code
                == 0xa0 || code == 0x1680 || 0x2000 <= code <= 0x200a || code == 0x2028 || code
                == 0x2029 || code == 0x202f || code == 0x205f || code == 0x3000
        }),
{
}

/// A trimmed text is a part of the text: nothing but white space stands before and behind it, and
/// it neither begins nor ends with white space.
pub proof fn trimmed_takes_off_white_space(s: Seq<char>) -> (ends: (Seq<char>, Seq<char>))
    ensures
        s == ends.0 + trimmed(s) + ends.1,
        forall|i: int| 0 <= i < ends.0.len() ==> is_white_space(#[trigger] ends.0[i]),
        forall|i: int| 0 <= i < ends.1.len() ==> is_white_space(#[trigger] ends.1[i]),
        trimmed(s).len() > 0 ==> !is_white_space(trimmed(s)[0]) && !is_white_space(
            trimmed(s)[trimmed(s).len() - 1],
        ),
    decreases s.len(),
{
    let none = Seq::<char>::empty();
    if s.len() == 0 {
        assert(s =~= none + trimmed(s) + none);
        (none, none)
    } else if is_white_space(s.first()) {
        let (before, after) = trimmed_takes_off_white_space(s.drop_first());
        let longer = seq![s.first()] + before;
        assert(s =~= seq![s.first()] + s.drop_first());
        assert(s =~= longer + trimmed(s) + after);
        (longer, after)
    } else if is_white_space(s.last()) {
        let (before, after) = trimmed_takes_off_white_space(s.drop_last());
        let longer = after.push(s.last());
        assert(s =~= s.drop_last().push(s.last()));
        assert(s =~= before + trimmed(s) + longer);
        (before, longer)
    } else {
        assert(s =~= none + trimmed(s) + none);
        (none, none)
    }
}

/// A text is split at its first separator: what stands before it has none, and the two parts with
/// the separator between them are the text. A text without one is not split.
pub proof fn split_is_at_the_first_separator(s: Seq<char>, sep: char)
    ensures
        match split_at_first(s, sep) {
            Some((before, after)) => s == before + seq![sep] + after && !before.contains(sep),
            None => !s.contains(sep),
        },
{
    lemma_head_len(s, sep);
    let n = head_len(s, sep) as int;
    if n < s.len() {
        assert(s =~= s.take(n) + seq![sep] + s.skip(n + 1));
        assert(!s.take(n).contains(sep));
    }
}

/// The texts with the separator between them.
pub open spec fn joined(texts: Seq<Seq<char>>, sep: char) -> Seq<char>
    decreases texts.len(),
{
    if texts.len() == 0 {
        Seq::empty()
    } else if texts.len() == 1 {
        texts[0]
    } else {
        texts[0] + seq![sep] + joined(texts.drop_first(), sep)
    }
}

/// The pieces of a text, with the separator between them, are the text.
pub proof fn pieces_join_to_the_text(s: Seq<char>, sep: char)
    ensures
        pieces(s, sep).len() > 0,
        joined(pieces(s, sep), sep) == s,
    decreases s.len(),
{
    lemma_head_len(s, sep);
    let n = head_len(s, sep) as int;
    if n < s.len() {
        let rest = pieces(s.skip(n + 1), sep);
        pieces_join_to_the_text(s.skip(n + 1), sep);
        assert(pieces(s, sep).drop_first() =~= rest);
        assert(pieces(s, sep)[0] == s.take(n));
        assert(s =~= s.take(n) + seq![sep] + s.skip(n + 1));
    }
}

/// A digit counts for what it is: the decimal digits for 0 to 9, the letters from `a` and from `A`
/// for 10 and on, as far as the radix goes. No other character is a digit.
pub proof fn digits_count_for_what_they_are(c: char, radix: int, i: int)
    requires
        2 <= radix <= 16,
    ensures
        0 <= i < 10 && c as u32 == '0' as u32 + i ==> digit_value(c, radix) == if i < radix {
            Some(i)
        } else {
            None
        },
        0 <= i < 6 && (c as u32 == 'a' as u32 + i || c as u32 == 'A' as u32 + i) ==> digit_value(
            c,
            radix,
        ) == if i + 10 < radix {
            Some(i + 10)
        } else {
            None
        },
        !('0' <= c <= '9' || 'a' <= c <= 'f' || 'A' <= c <= 'F') ==> digit_value(c, radix) is None,
        digit_value(c, radix) matches Some(v) ==> 0 <= v < radix,
{
}

/// All characters are digits.
pub open spec fn all_digits(s: Seq<char>, radix: int) -> bool {
    forall|i: int| 0 <= i < s.len() ==> digit_value(#[trigger] s[i], radix) is Some
}

/// A series of digits stands for a number, and nothing but digits does.
pub proof fn only_digits_are_a_number(s: Seq<char>, radix: int)
    requires
        2 <= radix <= 16,
    ensures
        digits_value(s, radix) is Some <==> all_digits(s, radix),
        digits_value(s, radix) matches Some(v) ==> v >= 0,
    decreases s.len(),
{
    if s.len() > 0 {
        let head = s.drop_last();
        only_digits_are_a_number(head, radix);
        digits_count_for_what_they_are(s.last(), radix, 0);
        if all_digits(s, radix) {
            assert forall|i: int| 0 <= i < head.len() implies digit_value(
                #[trigger] head[i],
                radix,
            ) is Some by {
                assert(head[i] == s[i]);
            }
            assert(digit_value(s[s.len() - 1], radix) is Some);
        }
        if digits_value(s, radix) is Some {
            assert forall|i: int| 0 <= i < s.len() implies digit_value(
                #[trigger] s[i],
                radix,
            ) is Some by {
                if i < head.len() {
                    assert(head[i] == s[i]);
                }
            }
            let high = digits_value(head, radix)->0;
            assert(high * radix >= 0) by (nonlinear_arith)
                requires
                    high >= 0,
                    radix >= 2,
            ;
        }
    }
}

/// A single digit stands for itself, and further digits move the ones before them up by as many
/// places.
pub proof fn digits_count_by_their_place(a: Seq<char>, b: Seq<char>, radix: int)
    requires
        2 <= radix <= 16,
        all_digits(a, radix),
        all_digits(b, radix),
    ensures
        b.len() == 1 ==> digits_value(b, radix) == digit_value(b[0], radix),
        digits_value(a + b, radix) == Some(
            digits_value(a, radix)->0 * pow(radix, b.len()) + digits_value(b, radix)->0,
        ),
    decreases b.len(),
{
    reveal(pow);
    only_digits_are_a_number(a, radix);
    only_digits_are_a_number(b, radix);
    if b.len() == 0 {
        assert(a + b =~= a);
        assert(digits_value(a, radix)->0 * 1 == digits_value(a, radix)->0);
    } else {
        let head = b.drop_last();
        assert forall|i: int| 0 <= i < head.len() implies digit_value(
            #[trigger] head[i],
            radix,
        ) is Some by {
            assert(head[i] == b[i]);
        }
        digits_count_by_their_place(a, head, radix);
        only_digits_are_a_number(head, radix);
        assert((a + b).drop_last() =~= a + head);
        assert((a + b).last() == b.last());
        assert(digit_value(b[b.len() - 1], radix) is Some);
        let va = digits_value(a, radix)->0;
        let vh = digits_value(head, radix)->0;
        let vl = digit_value(b.last(), radix)->0;
        let p = pow(radix, head.len());
        assert(pow(radix, b.len()) == radix * p);
        assert((va * p + vh) * radix + vl == va * (radix * p) + (vh * radix + vl))
            by (nonlinear_arith);
        if b.len() == 1 {
            reveal_with_fuel(digits_value, 2);
            assert(head =~= Seq::<char>::empty());
        }
    }
}

/// A number is one digit or more, with a plus sign before it or without, that stands for no more
/// than allowed. Anything else is none.
pub proof fn number_is_digits_behind_an_optional_sign(s: Seq<char>, radix: int, max: int)
    requires
        2 <= radix <= 16,
    ensures
        s.len() > 0 && all_digits(s, radix) ==> unsigned_value(s, radix, max) == if digits_value(
            s,
            radix,
        )->0 <= max {
            digits_value(s, radix)
        } else {
            None
        },
        s.len() > 0 && s[0] == '+' && s.drop_first().len() > 0 && s.drop_first()[0] != '+'
            ==> unsigned_value(s, radix, max) == unsigned_value(s.drop_first(), radix, max),
        s.len() == 0 || s == seq!['+'] ==> unsigned_value(s, radix, max) is None,
        s.len() > 0 && s[0] != '+' && !all_digits(s, radix) ==> unsigned_value(
            s,
            radix,
            max,
        ) is None,
        s.len() > 1 && s[0] == '+' && !all_digits(s.drop_first(), radix) ==> unsigned_value(
            s,
            radix,
            max,
        ) is None,
        unsigned_value(s, radix, max) matches Some(v) ==> 0 <= v <= max,
{
    only_digits_are_a_number(s, radix);
    if s.len() > 0 {
        only_digits_are_a_number(s.drop_first(), radix);
        digits_count_for_what_they_are(s[0], radix, 0);
        if all_digits(s, radix) {
            assert(digit_value(s[0], radix) is Some);
            assert(unsigned_digits(s) == s);
        }
    }
}

} // verus!
