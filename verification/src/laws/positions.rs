//! Transaction ids, log positions and names in fixed-size arrays.

use crate::laws::catchup::{lower, repositioned};
use crate::pg_compat::{lowest_lsn, overwritten, xid_follows_or_equals, xid_precedes};
use crate::remote::RemoteSlot;
use crate::server::{LocalSlot, SlotPosition};
use crate::slot_sync::{
    has_reached, is_behind, is_extra, limited, oldest_after_unset, report_interval, slot_exists,
};
use vstd::prelude::*;

verus! {

/// Normal transaction ids go round: an id precedes the 2^31 ids that come after it, and it is at
/// or after all others.
pub proof fn id_precedes_those_after_it(id: u32, k: int, later: u32)
    requires
        id >= 3,
        later >= 3,
        0 <= k < 0x1_0000_0000,
        later == (id + k) % 0x1_0000_0000,
    ensures
        xid_precedes(id, later) <==> 1 <= k <= 0x8000_0000,
        xid_follows_or_equals(id, later) <==> k == 0 || k > 0x8000_0000,
{
}

/// The ids 0, 1 and 2 are permanent: they are before every normal id, and among each other they
/// go by their number.
pub proof fn permanent_ids_go_by_number(a: u32, b: u32)
    requires
        a <= 2 || b <= 2,
    ensures
        xid_precedes(a, b) <==> a < b,
        xid_follows_or_equals(a, b) <==> a >= b,
{
}

/// A slot is behind a position exactly if its restart position is lower or its catalog id
/// precedes the one there. Where it confirmed the log does not count.
pub proof fn slot_is_behind_by_restart_or_id(slot: RemoteSlot, position: SlotPosition)
    ensures
        slot.restart_lsn < position.restart_lsn ==> is_behind(slot, position) && !has_reached(
            slot,
            position,
        ),
        xid_precedes(slot.catalog_xmin, position.catalog_xmin) ==> is_behind(slot, position)
            && !has_reached(slot, position),
        slot.restart_lsn >= position.restart_lsn && !xid_precedes(
            slot.catalog_xmin,
            position.catalog_xmin,
        ) ==> !is_behind(slot, position) && has_reached(slot, position),
{
}

/// Each position of a slot is limited by itself: it becomes the lower of what it was and its
/// limit. Nothing else of the slot changes.
pub proof fn each_position_is_limited_by_itself(
    slot: RemoteSlot,
    restart_max: u64,
    confirmed_max: u64,
)
    ensures
        limited(slot, restart_max, confirmed_max) == repositioned(
            slot,
            lower(slot.restart_lsn, restart_max),
            lower(slot.confirmed_lsn, confirmed_max),
            slot.catalog_xmin,
        ),
{
}

/// One more position: the lowest of all is the lower of it and the lowest before. Without any
/// position it is 0.
pub proof fn one_more_position_can_only_lower(positions: Seq<u64>, position: u64)
    ensures
        positions.len() > 0 ==> lowest_lsn(positions.push(position)) == lower(
            lowest_lsn(positions),
            position,
        ),
        lowest_lsn(seq![position]) == position,
        lowest_lsn(Seq::empty()) == 0,
{
    assert(positions.push(position).drop_last() =~= positions);
}

/// One more restart position: the oldest is the lower of it and the oldest before, and where none
/// was found before, it is that one.
pub proof fn one_more_restart_position(positions: Seq<u64>, position: u64)
    ensures
        oldest_after_unset(positions) > 0 ==> oldest_after_unset(positions.push(position))
            == lower(oldest_after_unset(positions), position),
        oldest_after_unset(positions) == 0 ==> oldest_after_unset(positions.push(position))
            == position,
        oldest_after_unset(Seq::empty()) == 0,
{
    assert(positions.push(position).drop_last() =~= positions);
}

/// A sleep is reported after five intervals, and after half a minute at the latest.
pub proof fn report_comes_after_five_intervals_or_half_a_minute(retry_interval: i32)
    ensures
        retry_interval <= 6_000 && i32::MIN <= 5 * retry_interval ==> report_interval(
            retry_interval,
        ) == 5 * retry_interval,
        retry_interval >= 6_000 ==> report_interval(retry_interval) == 30_000,
{
}

/// What is written to an array stands at its start; behind it the array is as before, and it
/// keeps its size.
pub proof fn array_is_overwritten_at_its_start(array: Seq<u8>, bytes: Seq<u8>, i: int)
    requires
        bytes.len() <= array.len(),
        0 <= i < array.len(),
    ensures
        overwritten(array, bytes).len() == array.len(),
        i < bytes.len() ==> overwritten(array, bytes)[i] == bytes[i],
        i >= bytes.len() ==> overwritten(array, bytes)[i] == array[i],
{
}

/// A slot exists once it is listed in use under its name, wherever it stands in the list and
/// whatever else is listed. Slots that are not in use or have other names do not make it exist.
pub proof fn slot_exists_where_it_is_listed(
    before: Seq<LocalSlot>,
    slot: LocalSlot,
    after: Seq<LocalSlot>,
    name: Seq<char>,
)
    ensures
        slot_exists(before + seq![slot] + after, name) <==> slot.in_use && slot.name@ == name
            || slot_exists(before, name) || slot_exists(after, name),
        !slot_exists(Seq::empty(), name),
{
    let all = before + seq![slot] + after;
    assert(all[before.len() as int] == slot);
    assert(forall|i: int| 0 <= i < before.len() ==> before[i] == #[trigger] all[i]);
    assert forall|i: int| 0 <= i < after.len() implies #[trigger] after[i] == all[before.len() + 1
        + i] by {}
    if slot_exists(before, name) {
        let i = choose|i: int|
            0 <= i < before.len() && (#[trigger] before[i]).in_use && before[i].name@ == name;
        assert(all[i].in_use);
    }
    if slot_exists(after, name) {
        let i = choose|i: int|
            0 <= i < after.len() && (#[trigger] after[i]).in_use && after[i].name@ == name;
        assert(all[before.len() + 1 + i].in_use);
    }
    if slot_exists(all, name) {
        let i = choose|i: int|
            0 <= i < all.len() && (#[trigger] all[i]).in_use && all[i].name@ == name;
        if i < before.len() {
            assert(before[i].in_use);
        } else if i > before.len() {
            assert(after[i - before.len() - 1].in_use);
        }
    }
}

/// A slot is extra only as long as it is in use, logical, acquired by no process and unknown to
/// the primary; its positions do not count.
pub proof fn extra_slot_is_idle_logical_and_unknown(slot: LocalSlot, names: Seq<Seq<char>>)
    ensures
        !slot.in_use || slot.active_pid != 0 || slot.database == 0 || names.contains(slot.name@)
            ==> !is_extra(slot, names),
        slot.in_use && slot.active_pid == 0 && slot.database != 0 && !names.contains(slot.name@)
            ==> is_extra(slot, names),
{
}

} // verus!
