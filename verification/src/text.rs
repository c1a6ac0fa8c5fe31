//! Splitting, trimming and reading numbers out of configuration and query text.

use vstd::prelude::*;

verus! {

/// Unicode's `White_Space` property.
pub open spec fn is_white_space(c: char) -> bool {
    let code = c as u32;
    ||| 0x09 <= code <= 0x0d
    ||| code == 0x20
    ||| code == 0x85
    ||| code == 0xa0
    ||| code == 0x1680
    ||| 0x2000 <= code <= 0x200a
    ||| code == 0x2028
    ||| code == 0x2029
    ||| code == 0x202f
    ||| code == 0x205f
    ||| code == 0x3000
}

/// Whether a character is white space.
pub fn char_is_white_space(c: char) -> (r: bool)
    ensures
        r == is_white_space(c),
{
    let code: u32 = c as u32;
    (0x09 <= code && code <= 0x0d) || code == 0x20 || code == 0x85 || code == 0xa0 || code
        == 0x1680 || (0x2000 <= code && code <= 0x200a) || code == 0x2028 || code == 0x2029 || code
        == 0x202f || code == 0x205f || code == 0x3000
}

/// The text without the white space at its two ends.
pub open spec fn trimmed(s: Seq<char>) -> Seq<char>
    decreases s.len(),
{
    if s.len() == 0 {
        s
    } else if is_white_space(s.first()) {
        trimmed(s.drop_first())
    } else if is_white_space(s.last()) {
        trimmed(s.drop_last())
    } else {
        s
    }
}

/// How many characters stand before the first `sep`, all of them if there is none.
pub open spec fn head_len(s: Seq<char>, sep: char) -> nat
    decreases s.len(),
{
    if s.len() == 0 || s.first() == sep {
        0
    } else {
        1 + head_len(s.drop_first(), sep)
    }
}

/// The text before and after the first `sep`, if there is one.
pub open spec fn split_at_first(s: Seq<char>, sep: char) -> Option<(Seq<char>, Seq<char>)> {
    let n = head_len(s, sep) as int;
    if n < s.len() {
        Some((s.take(n), s.skip(n + 1)))
    } else {
        None
    }
}

/// The pieces between the occurrences of `sep`: always one more than there are occurrences.
pub open spec fn pieces(s: Seq<char>, sep: char) -> Seq<Seq<char>>
    decreases s.len(),
{
    let n = head_len(s, sep) as int;
    if 0 <= n < s.len() {
        seq![s.take(n)] + pieces(s.skip(n + 1), sep)
    } else {
        seq![s]
    }
}

/// What [`head_len`] is: a length before which `sep` does not occur and at which it does,
/// unless the text ends there.
pub proof fn lemma_head_len(s: Seq<char>, sep: char)
    ensures
        head_len(s, sep) <= s.len(),
        forall|i: int| 0 <= i < head_len(s, sep) ==> s[i] != sep,
        head_len(s, sep) < s.len() ==> s[head_len(s, sep) as int] == sep,
    decreases s.len(),
{
    if s.len() > 0 && s.first() != sep {
        let rest = s.drop_first();
        lemma_head_len(rest, sep);
        assert forall|i: int| 0 <= i < head_len(s, sep) implies s[i] != sep by {
            if i > 0 {
                assert(rest[i - 1] == s[i]);
            }
        }
    }
}

/// The length that fits what [`lemma_head_len`] states is the only one.
pub proof fn lemma_head_len_unique(s: Seq<char>, sep: char, n: int)
    requires
        0 <= n <= s.len(),
        forall|i: int| 0 <= i < n ==> s[i] != sep,
        n < s.len() ==> s[n] == sep,
    ensures
        head_len(s, sep) == n,
{
    lemma_head_len(s, sep);
    let m = head_len(s, sep) as int;
    if m < n {
        assert(s[m] == sep);
    } else if n < m {
        assert(s[n] != sep);
    }
}

/// The characters of a text, in order.
fn chars_of(s: &str) -> (chars: Vec<char>)
    ensures
        chars@ == s@,
{
    let mut chars: Vec<char> = Vec::new();
    for c in it: s.chars()
        invariant
            it.seq() == s@,
            chars@ == s@.take(it.index()),
    {
        chars.push(c);
    }
    chars
}

/// Whether two texts are the same.
pub fn same_text(a: &str, b: &str) -> (r: bool)
    ensures
        r == (a@ == b@),
{
    a.to_owned() == b.to_owned()
}

/// `str::trim`.
pub fn trim(s: &str) -> (r: &str)
    ensures
        r@ == trimmed(s@),
{
    let chars: Vec<char> = chars_of(s);
    let mut from: usize = 0;
    let mut to: usize = chars.len();
    assert(s@.subrange(0, s@.len() as int) =~= s@);
    while from < to && char_is_white_space(chars[from])
        invariant
            chars@ == s@,
            from <= to,
            to == chars@.len(),
            trimmed(s@) == trimmed(s@.subrange(from as int, to as int)),
        decreases to - from,
    {
        assert(s@.subrange(from as int, to as int).drop_first() =~= s@.subrange(
            from + 1,
            to as int,
        ));
        from = from + 1;
    }
    while from < to && char_is_white_space(chars[to - 1])
        invariant
            chars@ == s@,
            from <= to <= chars@.len(),
            from < chars@.len() ==> !is_white_space(chars@[from as int]),
            trimmed(s@) == trimmed(s@.subrange(from as int, to as int)),
        decreases to - from,
    {
        assert(s@.subrange(from as int, to as int).drop_last() =~= s@.subrange(
            from as int,
            to - 1,
        ));
        to = to - 1;
    }
    s.substring_char(from, to)
}

/// The length of the text before the first `sep` at or after `from`, counted from `from`.
fn find_from(chars: &Vec<char>, from: usize, sep: char) -> (n: usize)
    requires
        from <= chars@.len(),
    ensures
        n == head_len(chars@.skip(from as int), sep),
        from + n <= chars@.len(),
{
    let mut at: usize = from;
    while at < chars.len() && chars[at] != sep
        invariant
            from <= at <= chars@.len(),
            forall|i: int| from <= i < at ==> chars@[i] != sep,
        decreases chars@.len() - at,
    {
        at = at + 1;
    }
    proof {
        lemma_head_len_unique(chars@.skip(from as int), sep, at - from);
    }
    at - from
}

/// `str::split_once` at a character.
pub fn split_once(s: &str, sep: char) -> (r: Option<(&str, &str)>)
    ensures
        r is Some <==> split_at_first(s@, sep) is Some,
        r matches Some((head, tail)) ==> split_at_first(s@, sep) == Some((head@, tail@)),
{
    let chars: Vec<char> = chars_of(s);
    let n: usize = find_from(&chars, 0, sep);
    assert(chars@.skip(0) =~= s@);
    if n < chars.len() {
        assert(s@.skip(n + 1) =~= s@.subrange(n + 1, s@.len() as int));
        Some((s.substring_char(0, n), s.substring_char(n + 1, chars.len())))
    } else {
        None
    }
}

/// The contents of a list of texts.
pub open spec fn text_views(texts: Seq<&str>) -> Seq<Seq<char>> {
    texts.map_values(|t: &str| t@)
}

/// `str::split` at a character, collected.
pub fn split(s: &str, sep: char) -> (r: Vec<&str>)
    ensures
        text_views(r@) == pieces(s@, sep),
{
    let chars: Vec<char> = chars_of(s);
    let mut found: Vec<&str> = Vec::new();
    let mut from: usize = 0;
    let mut n: usize = find_from(&chars, 0, sep);
    assert(s@.skip(0) =~= s@);
    assert(text_views(found@) + pieces(s@, sep) =~= pieces(s@, sep));
    while n < chars.len() - from
        invariant
            chars@ == s@,
            from <= chars@.len(),
            n == head_len(s@.skip(from as int), sep),
            from + n <= chars@.len(),
            text_views(found@) + pieces(s@.skip(from as int), sep) == pieces(s@, sep),
        decreases chars@.len() - from,
    {
        let ghost tail = s@.skip(from as int);
        let ghost before = text_views(found@);
        found.push(s.substring_char(from, from + n));
        proof {
            assert(tail.take(n as int) =~= s@.subrange(from as int, from + n));
            assert(tail.skip(n + 1) =~= s@.skip(from + n + 1));
            assert(text_views(found@) =~= before.push(tail.take(n as int)));
            assert(before + (seq![tail.take(n as int)] + pieces(s@.skip(from + n + 1), sep))
                =~= text_views(found@) + pieces(s@.skip(from + n + 1), sep));
        }
        from = from + n + 1;
        n = find_from(&chars, from, sep);
    }
    let ghost before = text_views(found@);
    found.push(s.substring_char(from, chars.len()));
    proof {
        let tail = s@.skip(from as int);
        assert(tail =~= s@.subrange(from as int, s@.len() as int));
        assert(text_views(found@) =~= before + seq![tail]);
    }
    found
}

/// The value of a digit in a radix of at most sixteen.
pub open spec fn digit_value(c: char, radix: int) -> Option<int> {
    let code = c as u32 as int;
    let value = if '0' as u32 <= code <= '9' as u32 {
        code - '0' as u32
    } else if 'a' as u32 <= code <= 'f' as u32 {
        code - 'a' as u32 + 10
    } else if 'A' as u32 <= code <= 'F' as u32 {
        code - 'A' as u32 + 10
    } else {
        radix
    };
    if value < radix {
        Some(value)
    } else {
        None
    }
}

/// The number that a series of digits stands for.
pub open spec fn digits_value(digits: Seq<char>, radix: int) -> Option<int>
    decreases digits.len(),
{
    if digits.len() == 0 {
        Some(0)
    } else {
        match (digits_value(digits.drop_last(), radix), digit_value(digits.last(), radix)) {
            (Some(high), Some(low)) => Some(high * radix + low),
            _ => None,
        }
    }
}

/// The digits of a number: what is left behind an optional plus sign.
pub open spec fn unsigned_digits(s: Seq<char>) -> Seq<char> {
    if s.len() > 0 && s.first() == '+' {
        s.drop_first()
    } else {
        s
    }
}

/// The number not above `max` that a text stands for: one digit or more behind an optional
/// plus sign, and nothing else.
pub open spec fn unsigned_value(s: Seq<char>, radix: int, max: int) -> Option<int> {
    let digits = unsigned_digits(s);
    match digits_value(digits, radix) {
        Some(value) => if digits.len() > 0 && value <= max {
            Some(value)
        } else {
            None
        },
        None => None,
    }
}

/// Numbers only grow as digits are added.
proof fn lemma_digits_value_prefix(digits: Seq<char>, radix: int, n: int)
    requires
        0 <= n <= digits.len(),
        2 <= radix <= 16,
        digits_value(digits, radix) is Some,
    ensures
        digits_value(digits.take(n), radix) matches Some(v) && 0 <= v
            <= digits_value(digits, radix)->0,
    decreases digits.len(),
{
    if n == digits.len() {
        assert(digits.take(n) =~= digits);
        if digits.len() > 0 {
            lemma_digits_value_prefix(digits.drop_last(), radix, digits.len() - 1);
            assert(digits.drop_last().take(digits.len() - 1) =~= digits.drop_last());
            let high = digits_value(digits.drop_last(), radix)->0;
            assert(0 <= high * radix) by (nonlinear_arith)
                requires
                    0 <= high,
                    2 <= radix,
            ;
        }
    } else {
        lemma_digits_value_prefix(digits.drop_last(), radix, n);
        assert(digits.drop_last().take(n) =~= digits.take(n));
        let high = digits_value(digits.drop_last(), radix)->0;
        assert(high <= high * radix) by (nonlinear_arith)
            requires
                0 <= high,
                2 <= radix,
        ;
    }
}

/// The value of a digit in a radix of at most sixteen.
fn parse_digit(c: char, radix: u64) -> (r: Option<u64>)
    requires
        2 <= radix <= 16,
    ensures
        match digit_value(c, radix as int) {
            Some(value) => r == Some(value as u64) && 0 <= value < radix,
            None => r is None,
        },
{
    let code: u32 = c as u32;
    let value: u64 = if 0x30 <= code && code <= 0x39 {
        (code - 0x30) as u64
    } else if 0x61 <= code && code <= 0x66 {
        (code - 0x61 + 10) as u64
    } else if 0x41 <= code && code <= 0x46 {
        (code - 0x41 + 10) as u64
    } else {
        radix
    };
    if value < radix {
        Some(value)
    } else {
        None
    }
}

/// `u64::from_str_radix`, with failure for a number above `max` too.
pub fn parse_unsigned(s: &str, radix: u64, max: u64) -> (r: Option<u64>)
    requires
        2 <= radix <= 16,
    ensures
        match unsigned_value(s@, radix as int, max as int) {
            Some(value) => r == Some(value as u64) && 0 <= value <= max,
            None => r is None,
        },
{
    let chars: Vec<char> = chars_of(s);
    let start: usize = if chars.len() > 0 && chars[0] == '+' {
        1
    } else {
        0
    };
    let ghost digits = unsigned_digits(s@);
    assert(digits =~= s@.skip(start as int));
    if start == chars.len() {
        return None;
    }
    let mut value: u64 = 0;
    let mut at: usize = start;
    assert(digits.take(0) =~= Seq::<char>::empty());
    while at < chars.len()
        invariant
            2 <= radix <= 16,
            chars@ == s@,
            start <= at <= chars@.len(),
            digits == unsigned_digits(s@),
            digits == s@.skip(start as int),
            digits.len() > 0,
            value <= max,
            digits_value(digits.take(at - start), radix as int) == Some(value as int),
        decreases chars@.len() - at,
    {
        let ghost next = digits.take(at - start + 1);
        proof {
            assert(next.drop_last() =~= digits.take(at - start));
            assert(next.last() == chars@[at as int]);
            if digits_value(digits, radix as int) is Some {
                lemma_digits_value_prefix(digits, radix as int, at - start + 1);
            }
        }
        let digit: u64 = match parse_digit(chars[at], radix) {
            Some(digit) => digit,
            None => {
                return None;
            },
        };
        assert(digits_value(next, radix as int) == Some(value * radix + digit));
        if digit > max || value > (max - digit) / radix {
            proof {
                assert(value * radix + digit > max) by (nonlinear_arith)
                    requires
                        2 <= radix,
                        0 <= value,
                        digit > max || value > (max - digit) / (radix as int),
                ;
            }
            return None;
        }
        assert(value * radix + digit <= max && value * radix <= max) by (nonlinear_arith)
            requires
                2 <= radix,
                0 <= value,
                digit <= max,
                value <= (max - digit) / (radix as int),
        ;
        value = value * radix + digit;
        at = at + 1;
    }
    assert(digits.take(digits.len() as int) =~= digits);
    Some(value)
}

} // verus!
