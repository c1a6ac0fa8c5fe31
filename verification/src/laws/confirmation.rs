//! The confirmations that a message waits for: which slots give one, and what the wait asks.

use crate::guc::Settings;
use crate::laws::catchup::answers;
use crate::pg_compat::lowest_lsn;
use crate::server::{LocalSlot, Reply, Request};
use crate::standby_wait::{
    all_flushed, big_endian, can_skip, count_reached, flush_position, has_flushed, is_named,
    is_timed_out, is_wal_data, named_positions, required_of, ConfirmationPhase, ConfirmationWait,
    KnownFlush, WaitEnd,
};
use vstd::prelude::*;

verus! {

// ---------------------------------------------------------------------------
// Which slots confirm
// ---------------------------------------------------------------------------

/// The slot shows that a position has been flushed: its `restart_lsn` does where it has no
/// database, its `confirmed_flush` where it has one.
pub open spec fn shows_flushed(slot: LocalSlot, lsn: u64) -> bool {
    if slot.database == 0 {
        slot.restart_lsn >= lsn
    } else {
        slot.confirmed_flush >= lsn
    }
}

/// The slot is in use, one of the named ones, and shows that a position has been flushed.
pub open spec fn confirms(names: Seq<Seq<char>>, lsn: u64) -> spec_fn(LocalSlot) -> bool {
    |slot: LocalSlot| slot.in_use && names.contains(slot.name@) && shows_flushed(slot, lsn)
}

/// How many slots confirm a position.
pub open spec fn confirmations(slots: Seq<LocalSlot>, names: Seq<Seq<char>>, lsn: u64) -> nat {
    slots.filter(confirms(names, lsn)).len()
}

/// The confirmations of a position are the named slots in use that show it flushed, by their
/// `restart_lsn` where they have no database and by their `confirmed_flush` where they have one.
/// Whether a process has a slot acquired makes no difference.
pub proof fn slots_confirm_by_their_own_position(
    slots: Seq<LocalSlot>,
    names: Seq<Seq<char>>,
    lsn: u64,
)
    ensures
        count_reached(named_positions(slots, names), lsn) == confirmations(slots, names, lsn),
    decreases slots.len(),
{
    reveal(Seq::filter);
    if slots.len() > 0 {
        slots_confirm_by_their_own_position(slots.drop_last(), names, lsn);
        let before = named_positions(slots.drop_last(), names);
        if is_named(slots.last(), names) {
            let all = named_positions(slots, names);
            assert(all.drop_last() =~= before);
        }
    }
}

/// A slot of the name shows that a position has been flushed.
pub open spec fn is_flushed_by(slots: Seq<LocalSlot>, name: Seq<char>, lsn: u64) -> bool {
    exists|i: int|
        0 <= i < slots.len() && (#[trigger] slots[i]).in_use && slots[i].name@ == name
            && shows_flushed(slots[i], lsn)
}

/// A name has flushed a position exactly if a slot in use has that name and shows it flushed by
/// its `restart_lsn` or `confirmed_flush`.
pub proof fn name_is_flushed_by_a_slot(slots: Seq<LocalSlot>, name: Seq<char>, lsn: u64)
    ensures
        has_flushed(slots, name, lsn) <==> is_flushed_by(slots, name, lsn),
{
    if has_flushed(slots, name, lsn) {
        let i = choose|i: int|
            0 <= i < slots.len() && (#[trigger] slots[i]).in_use && slots[i].name@ == name
                && flush_position(slots[i]) >= lsn;
        assert(shows_flushed(slots[i], lsn));
    }
    if is_flushed_by(slots, name, lsn) {
        let i = choose|i: int|
            0 <= i < slots.len() && (#[trigger] slots[i]).in_use && slots[i].name@ == name
                && shows_flushed(slots[i], lsn);
        assert(flush_position(slots[i]) >= lsn);
    }
}

/// The lowest position of the named slots is at or below the one of every named slot in use, and
/// it is the one of such a slot. Without such a slot it is 0.
pub proof fn lowest_position_is_one_of_the_slots(
    slots: Seq<LocalSlot>,
    names: Seq<Seq<char>>,
    lsn: u64,
)
    ensures
        ({
            let lowest = lowest_lsn(named_positions(slots, names));
            let is_one = |slot: LocalSlot| slot.in_use && names.contains(slot.name@);
            &&& forall|i: int|
                0 <= i < slots.len() && is_one(#[trigger] slots[i]) ==> shows_flushed(
                    slots[i],
                    lowest,
                )
            &&& (exists|i: int| 0 <= i < slots.len() && is_one(#[trigger] slots[i])) ==> exists|
                i: int,
            |
                0 <= i < slots.len() && is_one(#[trigger] slots[i]) && (lsn > lowest
                    ==> !shows_flushed(slots[i], lsn))
            &&& (forall|i: int| 0 <= i < slots.len() ==> !is_one(#[trigger] slots[i]))
                ==> lowest == 0
        }),
        (exists|i: int|
            0 <= i < slots.len() && (#[trigger] slots[i]).in_use && names.contains(slots[i].name@))
            <==> named_positions(slots, names).len() > 0,
    decreases slots.len(),
{
    if slots.len() > 0 {
        let rest = slots.drop_last();
        let last = slots.last();
        let is_one = |slot: LocalSlot| slot.in_use && names.contains(slot.name@);
        lowest_position_is_one_of_the_slots(rest, names, lsn);
        let before = named_positions(rest, names);
        let all = named_positions(slots, names);
        assert(forall|i: int| 0 <= i < rest.len() ==> rest[i] == #[trigger] slots[i]);
        assert(slots[slots.len() - 1] == last);
        if before.len() > 0 {
            let i = choose|i: int|
                0 <= i < rest.len() && is_one(#[trigger] rest[i]) && (lsn > lowest_lsn(before)
                    ==> !shows_flushed(rest[i], lsn));
            assert(is_one(slots[i]));
        }
        if is_one(last) {
            assert(all.drop_last() =~= before);
            assert(is_one(slots[slots.len() - 1]));
            if before.len() == 0 {
                assert(all.len() == 1);
            }
        }
    }
}

/// All of the named slots must confirm where the least number is -1, and otherwise as many as
/// the least number says, but no more than there are names.
pub proof fn required_is_the_least_number_or_all(total: int, min: int)
    requires
        total >= 0,
    ensures
        min == -1 ==> required_of(total, min) == total,
        0 <= min <= total ==> required_of(total, min) == min,
        min > total ==> required_of(total, min) == total,
        min < -1 ==> required_of(total, min) == 0,
{
}

// ---------------------------------------------------------------------------
// What the wait asks
// ---------------------------------------------------------------------------

/// A reply to anything but the request changes nothing, and neither does one after the end.
pub proof fn confirmation_heeds_only_answers(wait: ConfirmationWait, reply: Reply)
    requires
        !answers(wait.pending(), reply),
    ensures
        wait.next(reply) == wait,
{
}

/// How many of the names that the settings hold must confirm.
pub open spec fn least(settings: Settings) -> int {
    let total = settings.standby_names().len();
    let min = settings.standby_slots_min_confirmed;
    if min == -1 {
        total as int
    } else if min < 0 {
        0
    } else if min < total {
        min as int
    } else {
        total as int
    }
}

/// The slots show enough of a position, by their own fields: as many of the named ones as must
/// confirm do, or all names are flushed.
pub open spec fn fields_show(slots: Seq<LocalSlot>, settings: Settings, lsn: u64) -> bool {
    ||| confirmations(slots, settings.standby_names(), lsn) >= least(settings)
    ||| forall|n: Seq<char>| #[trigger]
        settings.standby_names().contains(n) ==> is_flushed_by(slots, n, lsn)
}

/// A message need not wait exactly if this process streams from a named slot itself, no
/// confirmation is asked for, no standby is named, there is no position, or the known position is
/// at or past it and the slots as they were last seen show enough of it.
pub proof fn wait_is_skipped_exactly_where_it_need_not_be(
    settings: Settings,
    own_slot: Option<String>,
    known: KnownFlush,
    commit_lsn: u64,
)
    ensures
        can_skip(settings, own_slot, known, commit_lsn) <==> {
            ||| own_slot is Some && settings.standby_names().contains(own_slot->0@)
            ||| settings.standby_slots_min_confirmed == 0
            ||| settings.standby_names().len() == 0
            ||| commit_lsn == 0
            ||| known.lsn >= commit_lsn && fields_show(known.slots@, settings, commit_lsn)
        },
{
    let names = settings.standby_names();
    slots_confirm_by_their_own_position(known.slots@, names, commit_lsn);
    assert forall|n: Seq<char>| has_flushed(known.slots@, n, commit_lsn) <==> is_flushed_by(
        known.slots@,
        n,
        commit_lsn,
    ) by {
        name_is_flushed_by_a_slot(known.slots@, n, commit_lsn);
    }
    assert(all_flushed(known.slots@, names, commit_lsn) <==> forall|n: Seq<char>| #[trigger]
        names.contains(n) ==> is_flushed_by(known.slots@, n, commit_lsn));
}

/// A message is held back, whatever the settings and whichever slot this process streams from:
/// first the settings are read and the own slot. The message is sent where it need not wait, and
/// otherwise the clock is read for the start of the wait. The position and what is known stay.
pub proof fn wait_begins_with_the_settings(
    commit_lsn: u64,
    known: KnownFlush,
    settings: Settings,
    own_slot: Option<String>,
    now: i64,
)
    ensures
        ({
            let start = ConfirmationWait::starting(commit_lsn, known);
            let told = start.next(Reply::Settings(settings));
            let owned = told.next(Reply::OwnSlot(own_slot));
            let timed = owned.next(Reply::Time(now));
            let skips = can_skip(settings, own_slot, known, commit_lsn);
            &&& start.commit_lsn == commit_lsn && start.known == known && start.wait_start == 0
            &&& start.pending() is ReadSettings
            &&& told.pending() is ReadOwnSlot
            &&& skips ==> owned.phase == (ConfirmationPhase::Finished { end: WaitEnd::Skipped })
            &&& skips ==> owned.pending() is Nothing
            &&& !skips ==> owned.pending() is ReadClock && timed.pending() is ReadSettings
                && timed.wait_start == now
            &&& !skips ==> timed.phase is Configure
        }),
{
}

/// Before each look at the slots the settings are read. Where they ask for no confirmation the
/// message is sent; otherwise the slots are listed. The message is sent exactly if as many of the
/// named slots as must confirm do so by their own fields: then the highest lowest position of the
/// named slots stays known, and the list of the slots. Otherwise the wait sleeps for a tenth of a
/// second.
pub proof fn look_at_the_slots_decides(
    wait: ConfirmationWait,
    settings: Settings,
    slots: Vec<LocalSlot>,
)
    requires
        wait.phase is Configure,
    ensures
        wait.pending() is ReadSettings,
        ({
            let told = wait.next(Reply::Settings(settings));
            let after = told.next(Reply::LocalSlots(slots));
            let enough = confirmations(slots@, settings.standby_names(), wait.commit_lsn) >= least(
                settings,
            );
            let lowest = lowest_lsn(named_positions(slots@, settings.standby_names()));
            &&& least(settings) == 0 ==> told.pending() is Nothing && told.phase == (
            ConfirmationPhase::Finished { end: WaitEnd::NothingRequired })
            &&& least(settings) != 0 ==> told.pending() is ListLocalSlots
            &&& told.known == wait.known
            &&& least(settings) != 0 && enough ==> after.pending() is Nothing && after.phase == (
            ConfirmationPhase::Finished { end: WaitEnd::Confirmed }) && after.known.slots == slots
                && after.known.lsn >= lowest && after.known.lsn >= wait.known.lsn && (
            after.known.lsn == lowest || after.known.lsn == wait.known.lsn)
            &&& least(settings) != 0 && !enough ==> after.pending() == (
            Request::WaitForConfirmation { ms: 100 }) && after.known == wait.known
        }),
{
    slots_confirm_by_their_own_position(slots@, settings.standby_names(), wait.commit_lsn);
}

/// After each sleep the wait acts on interrupts, and asks for the time limit and whether the
/// configuration is to be read again. It ends the process where the postmaster is gone, and where
/// the time limit is above 0 and more than so many milliseconds have passed since the clock was
/// read. Where the configuration was read again it asks for settings and own slot as at the start,
/// but not for the clock; otherwise it goes on to the next look. What is known stays.
pub proof fn wait_goes_on_between_looks(
    wait: ConfirmationWait,
    limit: i32,
    now: i64,
    settings: Settings,
    own_slot: Option<String>,
)
    requires
        wait.pending() is WaitForConfirmation,
    ensures
        ({
            let died = wait.next(Reply::Woken { postmaster_died: true });
            let woken = wait.next(Reply::Woken { postmaster_died: false });
            let awake = woken.next(Reply::Done);
            let timed = awake.next(Reply::Timeout { limit, now });
            let same = timed.next(Reply::ReloadPending(false));
            let changed = timed.next(Reply::ReloadPending(true));
            let reloaded = changed.next(Reply::Done);
            let told = reloaded.next(Reply::Settings(settings));
            let owned = told.next(Reply::OwnSlot(own_slot));
            let skips = can_skip(settings, own_slot, wait.known, wait.commit_lsn);
            let late = limit > 0 && now - wait.wait_start > limit * 1000;
            &&& died.pending() == (Request::Exit { code: 1, timed_out: false })
            &&& woken.pending() is CheckInterrupts
            &&& awake.pending() is ReadTimeout
            &&& late ==> timed.pending() == (Request::Exit { code: 0, timed_out: true })
            &&& !late ==> timed.pending() is CheckReload && same.phase is Configure
                && changed.pending() is ReloadConfig && reloaded.pending() is ReadSettings
                && told.pending() is ReadOwnSlot
            &&& !late && skips ==> owned.pending() is Nothing
            &&& !late && !skips ==> owned.phase is Configure
            &&& owned.known == wait.known && same.known == wait.known
        }),
{
}

/// The position of a message never changes, and the start of the wait only where the clock is
/// read.
pub proof fn position_and_start_stay(wait: ConfirmationWait, reply: Reply)
    ensures
        wait.next(reply).commit_lsn == wait.commit_lsn,
        !(wait.pending() is ReadClock) ==> wait.next(reply).wait_start == wait.wait_start,
        !(wait.pending() is ListLocalSlots) ==> wait.next(reply).known == wait.known,
{
}

/// A limit that is not above 0 is none; any other is passed once the wait has lasted longer than
/// so many thousand microseconds, and not before.
pub proof fn time_limit_counts_from_the_start(start: i64, limit: i32, elapsed: int, now: i64)
    requires
        now == start + elapsed,
    ensures
        limit <= 0 ==> !is_timed_out(start, limit, now),
        limit > 0 && elapsed <= 1000 * limit ==> !is_timed_out(start, limit, now),
        limit > 0 && elapsed > 1000 * limit ==> is_timed_out(start, limit, now),
{
}

// ---------------------------------------------------------------------------
// Messages
// ---------------------------------------------------------------------------

/// A message carries log data exactly if it is of type `d`, begins with `w` and has room for the
/// two positions and the time behind it, or more.
pub proof fn log_data_has_its_marks(msgtype: u8, payload: Seq<u8>, first: u8, rest: Seq<u8>)
    requires
        payload == seq![first] + rest,
    ensures
        msgtype == 'd' as u8 && first == 'w' as u8 && rest.len() >= 16 <==> is_wal_data(
            msgtype,
            payload,
        ),
        !is_wal_data(msgtype, Seq::empty()),
{
    assert(payload[0] == first);
}

/// The bytes of a position count by their place, the first for the most.
pub proof fn position_is_in_network_order(
    b0: u8,
    b1: u8,
    b2: u8,
    b3: u8,
    b4: u8,
    b5: u8,
    b6: u8,
    b7: u8,
)
    ensures
        big_endian(seq![b0, b1, b2, b3, b4, b5, b6, b7]) == b0 * 0x100_0000_0000_0000 + b1
            * 0x1_0000_0000_0000 + b2 * 0x100_0000_0000 + b3 * 0x1_0000_0000 + b4 * 0x100_0000 + b5
            * 0x1_0000 + b6 * 0x100 + b7,
{
    let s8 = seq![b0, b1, b2, b3, b4, b5, b6, b7];
    let s7 = seq![b0, b1, b2, b3, b4, b5, b6];
    let s6 = seq![b0, b1, b2, b3, b4, b5];
    let s5 = seq![b0, b1, b2, b3, b4];
    let s4 = seq![b0, b1, b2, b3];
    let s3 = seq![b0, b1, b2];
    let s2 = seq![b0, b1];
    let s1 = seq![b0];
    assert(s8.drop_last() =~= s7);
    assert(s7.drop_last() =~= s6);
    assert(s6.drop_last() =~= s5);
    assert(s5.drop_last() =~= s4);
    assert(s4.drop_last() =~= s3);
    assert(s3.drop_last() =~= s2);
    assert(s2.drop_last() =~= s1);
    assert(s1.drop_last() =~= Seq::<u8>::empty());
    reveal_with_fuel(big_endian, 9);
}

} // verus!
