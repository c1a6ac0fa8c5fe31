//! Slots as the primary sends them.

use crate::laws::lsn::lsn_round_trip;
use crate::remote::{lsn_text, slot_in_row, xid_of_text, PgResult, RemoteSlotView};
use crate::text::{digit_value, digits_value, unsigned_digits};
use vstd::prelude::*;

verus! {

/// A number in decimal, without leading zeros.
pub open spec fn decimal_text(n: int) -> Seq<char>
    decreases n,
{
    let digit = ('0' as u32 + n % 10) as char;
    if n < 10 {
        seq![digit]
    } else {
        decimal_text(n / 10).push(digit)
    }
}

proof fn lemma_decimal_text(n: int)
    requires
        0 <= n,
    ensures
        decimal_text(n).len() > 0,
        decimal_text(n)[0] != '+',
        digits_value(decimal_text(n), 10) == Some(n),
    decreases n,
{
    reveal_with_fuel(digits_value, 2);
    let digit = ('0' as u32 + n % 10) as char;
    assert(digit_value(digit, 10) == Some(n % 10));
    if n < 10 {
        assert(decimal_text(n).drop_last() =~= Seq::<char>::empty());
    } else {
        lemma_decimal_text(n / 10);
        assert(decimal_text(n).drop_last() =~= decimal_text(n / 10));
        assert(decimal_text(n)[0] == decimal_text(n / 10)[0]);
    }
}

/// Writing a transaction id in decimal and reading it gives it back.
pub proof fn xid_round_trip(xid: u32)
    ensures
        xid_of_text(decimal_text(xid as int)) == xid,
{
    lemma_decimal_text(xid as int);
    assert(unsigned_digits(decimal_text(xid as int)) == decimal_text(xid as int));
}

/// A row of the result holds a slot the way the server writes one.
pub open spec fn row_holds(result: PgResult, row: int, slot: RemoteSlotView) -> bool {
    &&& result.cell(row, 0) == Some(slot.name)
    &&& result.cell(row, 1) == Some(slot.plugin)
    &&& result.cell(row, 2) == Some(slot.database)
    &&& result.cell(row, 3) == Some(
        if slot.two_phase {
            "t"@
        } else {
            "f"@
        },
    )
    &&& result.cell(row, 4) == Some(decimal_text(slot.catalog_xmin as int))
    &&& result.cell(row, 5) == Some(lsn_text(slot.restart_lsn))
    &&& result.cell(row, 6) == Some(lsn_text(slot.confirmed_lsn))
}

/// A slot that the primary sends is read as it is there.
pub proof fn slot_round_trip(result: PgResult, row: int, slot: RemoteSlotView)
    requires
        row_holds(result, row, slot),
    ensures
        slot_in_row(result, row) == slot,
{
    xid_round_trip(slot.catalog_xmin);
    lsn_round_trip(slot.restart_lsn, Seq::empty(), Seq::empty());
    lsn_round_trip(slot.confirmed_lsn, Seq::empty(), Seq::empty());
    reveal_strlit("t");
    reveal_strlit("f");
    assert("t"@[0] != "f"@[0]);
}

} // verus!
