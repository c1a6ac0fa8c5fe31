//! PostgreSQL's own small types and rules: log positions, transaction ids, timestamps.

use vstd::prelude::*;

verus! {

/// `InvalidXLogRecPtr`: no position in the write-ahead log.
pub const INVALID_XLOG_REC_PTR: u64 = 0;

/// `InvalidTransactionId`.
pub const INVALID_TRANSACTION_ID: u32 = 0;

/// `FirstNormalTransactionId`: smaller ids are permanent and never wrap around.
pub const FIRST_NORMAL_TRANSACTION_ID: u32 = 3;

/// `InvalidOid`: the database of a physical replication slot.
pub const INVALID_OID: u32 = 0;

/// Size of PostgreSQL's fixed-size `NameData`.
pub const NAMEDATALEN: usize = 64;

/// How far a server has come towards accepting read-only queries during recovery.
#[derive(Debug, Clone, Copy, PartialEq, Eq, Structural)]
pub enum HotStandbyState {
    Disabled,
    Initialized,
    SnapshotPending,
    SnapshotReady,
}

/// `HotStandbyActive()`: hot standby is active in the last of the states.
pub fn hot_standby_active(state: HotStandbyState) -> (active: bool)
    ensures
        active <==> state is SnapshotReady,
{
    match state {
        HotStandbyState::SnapshotReady => true,
        _ => false,
    }
}

/// `TimestampTzPlusMilliseconds(tz, ms)`: a timestamp counts microseconds.
pub fn timestamp_tz_plus_milliseconds(tz: i64, ms: i64) -> (sum: i64)
    requires
        i64::MIN <= ms * 1000 <= i64::MAX,
        i64::MIN <= tz + ms * 1000 <= i64::MAX,
    ensures
        sum == tz + ms * 1000,
{
    tz + ms * 1000
}

/// Is `id1` logically before `id2`? Permanent ids compare as numbers, normal ids modulo 2^32:
/// each normal id has the 2^31 ids below it in the past.
pub open spec fn xid_precedes(id1: u32, id2: u32) -> bool {
    if id1 < FIRST_NORMAL_TRANSACTION_ID || id2 < FIRST_NORMAL_TRANSACTION_ID {
        id1 < id2
    } else {
        (id1 - id2) % 0x1_0000_0000 >= 0x8000_0000
    }
}

/// `TransactionIdPrecedes(id1, id2)`.
pub fn transaction_id_precedes(id1: u32, id2: u32) -> (precedes: bool)
    ensures
        precedes == xid_precedes(id1, id2),
{
    if id1 < FIRST_NORMAL_TRANSACTION_ID || id2 < FIRST_NORMAL_TRANSACTION_ID {
        id1 < id2
    } else {
        id1.wrapping_sub(id2) >= 0x8000_0000
    }
}

/// `TransactionIdFollowsOrEquals(id1, id2)`: permanent ids compare as numbers, a normal id
/// follows the 2^31 ids that end with itself.
pub fn transaction_id_follows_or_equals(id1: u32, id2: u32) -> (follows: bool)
    ensures
        follows == xid_follows_or_equals(id1, id2),
{
    if id1 < FIRST_NORMAL_TRANSACTION_ID || id2 < FIRST_NORMAL_TRANSACTION_ID {
        id1 >= id2
    } else {
        id1.wrapping_sub(id2) < 0x8000_0000
    }
}

/// Is `id1` logically at or after `id2`?
pub open spec fn xid_follows_or_equals(id1: u32, id2: u32) -> bool {
    if id1 < FIRST_NORMAL_TRANSACTION_ID || id2 < FIRST_NORMAL_TRANSACTION_ID {
        id1 >= id2
    } else {
        (id1 - id2) % 0x1_0000_0000 < 0x8000_0000
    }
}

/// Following or equal is exactly not preceding.
pub proof fn xid_follows_or_equals_iff_not_precedes(id1: u32, id2: u32)
    ensures
        xid_follows_or_equals(id1, id2) <==> !xid_precedes(id1, id2),
{
}

/// No transaction id precedes itself.
pub proof fn xid_precedes_irreflexive(id: u32)
    ensures
        !xid_precedes(id, id),
{
}

/// The lowest of some log positions, invalid where there are none.
pub open spec fn lowest_lsn(positions: Seq<u64>) -> u64
    decreases positions.len(),
{
    if positions.len() == 0 {
        INVALID_XLOG_REC_PTR
    } else if positions.len() == 1 || positions.last() < lowest_lsn(positions.drop_last()) {
        positions.last()
    } else {
        lowest_lsn(positions.drop_last())
    }
}

/// `lsn` is the smallest of `positions` from index `start` on.
pub open spec fn is_minimum_from(positions: Seq<u64>, start: int, lsn: u64) -> bool {
    &&& exists|i: int| start <= i < positions.len() && positions[i] == lsn
    &&& forall|i: int| start <= i < positions.len() ==> lsn <= positions[i]
}

/// Where there is a position, the lowest is the minimum of all: one of them, and none is below.
pub proof fn lowest_lsn_is_minimum(positions: Seq<u64>)
    requires
        positions.len() > 0,
    ensures
        is_minimum_from(positions, 0, lowest_lsn(positions)),
    decreases positions.len(),
{
    let rest = positions.drop_last();
    if rest.len() > 0 {
        lowest_lsn_is_minimum(rest);
        let i = choose|i: int| 0 <= i < rest.len() && rest[i] == lowest_lsn(rest);
        assert(positions[i] == lowest_lsn(rest));
        assert(forall|j: int| 0 <= j < rest.len() ==> positions[j] == rest[j]);
    }
    assert(positions.last() == positions[positions.len() - 1]);
}

/// What an array holds after `bytes` were written to its start.
pub open spec fn overwritten(array: Seq<u8>, bytes: Seq<u8>) -> Seq<u8> {
    bytes + array.skip(bytes.len() as int)
}

/// Copy the first `len` bytes of `src` to the start of `dest`.
pub fn copy_bytes(dest: &mut [u8], src: &[u8], len: usize)
    requires
        len <= src@.len(),
        len <= old(dest)@.len(),
    ensures
        final(dest)@ == overwritten(old(dest)@, src@.take(len as int)),
{
    let ghost before = dest@;
    let mut i: usize = 0;
    assert(dest@ =~= overwritten(before, src@.take(0)));
    while i < len
        invariant
            i <= len <= src@.len(),
            len <= before.len(),
            dest@ == overwritten(before, src@.take(i as int)),
        decreases len - i,
    {
        dest[i] = src[i];
        assert(dest@ =~= overwritten(before, src@.take(i + 1)));
        i = i + 1;
    }
}

} // verus!
