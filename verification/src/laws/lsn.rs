//! Log positions as text.

use crate::laws::lists::trimmed_is_between_white_space;
use crate::remote::{half_of_text, hex_char, hex_text, lsn_of_text, lsn_text};
use crate::text::{
    digit_value, digits_value, is_white_space, lemma_head_len_unique, split_at_first, trimmed,
    unsigned_digits, unsigned_value,
};
use vstd::prelude::*;

verus! {

/// A character that stands in a hexadecimal number.
spec fn is_hex(c: char) -> bool {
    c != '/' && c != '+' && !is_white_space(c) && digit_value(c, 16) is Some
}

proof fn lemma_hex_char(digit: int)
    requires
        0 <= digit < 16,
    ensures
        is_hex(hex_char(digit)),
        digit_value(hex_char(digit), 16) == Some(digit),
{
}

/// Writing a number in hexadecimal and reading it gives it back.
pub proof fn hex_round_trip(n: int)
    requires
        0 <= n <= u64::MAX,
    ensures
        half_of_text(hex_text(n)) == n,
{
    lemma_hex_text(n);
    assert(unsigned_digits(hex_text(n)) == hex_text(n)) by {
        assert(is_hex(hex_text(n)[0]));
    }
}

proof fn lemma_hex_text(n: int)
    requires
        0 <= n,
    ensures
        hex_text(n).len() > 0,
        forall|i: int| 0 <= i < hex_text(n).len() ==> is_hex(#[trigger] hex_text(n)[i]),
        digits_value(hex_text(n), 16) == Some(n),
    decreases n,
{
    reveal_with_fuel(digits_value, 2);
    if n < 16 {
        lemma_hex_char(n);
        assert(hex_text(n).drop_last() =~= Seq::<char>::empty());
    } else {
        lemma_hex_text(n / 16);
        lemma_hex_char(n % 16);
        assert(hex_text(n).drop_last() =~= hex_text(n / 16));
    }
}

/// A position is its high half times 2^32 plus its low half.
pub proof fn lsn_is_high_half_and_low_half(s: Seq<char>, hi: Seq<char>, lo: Seq<char>)
    requires
        split_at_first(trimmed(s), '/') == Some((hi, lo)),
        half_of_text(hi) < 0x1_0000_0000,
        half_of_text(lo) < 0x1_0000_0000,
    ensures
        lsn_of_text(s) == half_of_text(hi) * 0x1_0000_0000 + half_of_text(lo),
{
    lemma_halves(half_of_text(hi), half_of_text(lo));
}

proof fn lemma_halves(hi: u64, lo: u64)
    requires
        hi < 0x1_0000_0000,
        lo < 0x1_0000_0000,
    ensures
        (hi << 32) | lo == hi * 0x1_0000_0000 + lo,
{
    assert((hi << 32) | lo == hi * 0x1_0000_0000 + lo) by (bit_vector)
        requires
            hi < 0x1_0000_0000,
            lo < 0x1_0000_0000,
    ;
}

/// Reading a position that was written the way the server writes it gives it back, with white
/// space around it too.
pub proof fn lsn_round_trip(lsn: u64, before: Seq<char>, after: Seq<char>)
    requires
        forall|i: int| 0 <= i < before.len() ==> is_white_space(#[trigger] before[i]),
        forall|i: int| 0 <= i < after.len() ==> is_white_space(#[trigger] after[i]),
    ensures
        lsn_of_text(lsn_text(lsn)) == lsn,
        lsn_of_text(before + lsn_text(lsn) + after) == lsn,
{
    let high = lsn as int / 0x1_0000_0000;
    let low = lsn as int % 0x1_0000_0000;
    let s = lsn_text(lsn);
    lemma_hex_text(high);
    lemma_hex_text(low);
    hex_round_trip(high);
    hex_round_trip(low);
    let n = hex_text(high).len() as int;
    assert(is_hex(s[0])) by {
        assert(s[0] == hex_text(high)[0]);
    }
    assert(is_hex(s.last())) by {
        assert(s.last() == hex_text(low)[hex_text(low).len() - 1]);
    }
    trimmed_is_between_white_space(before, s, after);
    trimmed_is_between_white_space(Seq::empty(), s, Seq::empty());
    assert(Seq::<char>::empty() + s + Seq::<char>::empty() =~= s);
    assert forall|i: int| 0 <= i < n implies s[i] != '/' by {
        assert(is_hex(hex_text(high)[i]));
    }
    lemma_head_len_unique(s, '/', n);
    assert(s.take(n) =~= hex_text(high));
    assert(s.skip(n + 1) =~= hex_text(low));
    lemma_halves(high as u64, low as u64);
}

/// Positions are ordered as the texts that the server writes for them are read.
pub proof fn lsn_order_preserved(a: u64, b: u64)
    ensures
        lsn_of_text(lsn_text(a)) < lsn_of_text(lsn_text(b)) <==> a < b,
{
    lsn_round_trip(a, Seq::empty(), Seq::empty());
    lsn_round_trip(b, Seq::empty(), Seq::empty());
}

} // verus!
