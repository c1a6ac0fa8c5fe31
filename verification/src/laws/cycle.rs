//! A synchronization cycle: what is asked, and which slots are gone through.

use crate::guc::{name_views, Settings};
use crate::laws::catchup::{answers, lower, repositioned};
use crate::laws::slots::{
    cycle_goes_through_all_slots, cycle_run, slots_begun, slots_fetched,
};
use crate::pg_compat::INVALID_OID;
use crate::remote::RemoteSlot;
use crate::server::{CycleEnd, LocalSlot, Reply, Request, StandbyStatus};
use crate::slot_sync::{
    first_extra, is_extra, lemma_first_extra, oldest_after_unset, restart_lsns, CyclePhase,
    SlotSync, SyncCycle,
};
use vstd::prelude::*;

verus! {

/// A reply to anything but the request changes nothing.
pub proof fn cycle_heeds_only_answers(cycle: SyncCycle, reply: Reply)
    requires
        !answers(cycle.pending(), reply),
        cycle.pending() !is Nothing,
    ensures
        cycle.next(reply) == cycle,
{
}

/// A cycle keeps its configuration and its time to sleep to the end.
pub proof fn cycle_keeps_its_configuration(cycle: SyncCycle, replies: Seq<Reply>)
    ensures
        cycle_run(cycle, replies).settings == cycle.settings,
        cycle_run(cycle, replies).sleep_time == cycle.sleep_time,
    decreases replies.len(),
{
    if replies.len() > 0 {
        cycle_keeps_its_configuration(cycle, replies.drop_last());
    }
}

/// A cycle ends with this.
pub open spec fn ends_with(cycle: SyncCycle, end: CycleEnd) -> bool {
    &&& cycle.phase == (CyclePhase::Finished { end })
    &&& cycle.pending() == Request::Nothing
}

/// A cycle connects to the primary exactly where there is a WAL receiver, some slot is asked
/// for, `hot_standby_feedback` is on, and the WAL receiver uses a slot. Otherwise it ends at once
/// and tells the first of these that is missing.
pub proof fn cycle_needs_a_standby_that_streams(
    settings: Settings,
    status: StandbyStatus,
    sleep_time: i64,
    safe: bool,
)
    ensures
        ({
            let cycle = SyncCycle::starting(settings, status, sleep_time, safe);
            let own_slot = status.wal_receiver_slot;
            &&& cycle.settings == settings && cycle.sleep_time == sleep_time && cycle.was_lsn_safe
                == safe
            &&& own_slot is None || settings.filters().len() == 0 ==> ends_with(
                cycle,
                CycleEnd::Skipped,
            )
            &&& own_slot is Some && settings.filters().len() > 0 && !status.hot_standby_feedback
                ==> ends_with(cycle, CycleEnd::FeedbackOff)
            &&& own_slot is Some && settings.filters().len() > 0 && status.hot_standby_feedback
                && own_slot->0@.len() == 0 ==> ends_with(cycle, CycleEnd::NoPrimarySlotName)
            &&& own_slot is Some && settings.filters().len() > 0 && status.hot_standby_feedback
                && own_slot->0@.len() > 0 ==> cycle.pending() == (Request::ConnectMaintenance {
                settings: &cycle.settings,
            })
        }),
{
}

/// What a cycle asks the primary: once connected, the slots that the configuration asks for; once
/// they are known, the position of the slot that this standby streams from; then, where extra
/// slots are to be dropped, the names of all its slots. Then the connection is closed. It is
/// also closed, and the cycle ended, where the first query fails.
pub proof fn cycle_asks_the_primary(
    settings: Settings,
    status: StandbyStatus,
    sleep_time: i64,
    safe: bool,
    slots: Vec<RemoteSlot>,
    safe_lsn: u64,
    names: Option<Vec<String>>,
)
    requires
        SyncCycle::starting(settings, status, sleep_time, safe).pending() is ConnectMaintenance,
    ensures
        ({
            let cycle = SyncCycle::starting(settings, status, sleep_time, safe);
            let connected = cycle.next(Reply::Connected(true));
            let failed = connected.next(Reply::RemoteSlots(None));
            let fetched = connected.next(Reply::RemoteSlots(Some(slots)));
            let located = fetched.next(Reply::SlotLsn(safe_lsn));
            &&& ends_with(cycle.next(Reply::Connected(false)), CycleEnd::CannotConnect)
            &&& connected.pending() == (Request::FetchConfiguredSlots {
                settings: &connected.settings,
            })
            &&& failed.pending() == Request::Disconnect
            &&& ends_with(failed.next(Reply::Done), CycleEnd::FetchFailed)
            &&& fetched.pending() == (Request::FetchSlotLsn {
                name: &status.wal_receiver_slot->0,
            })
            &&& if settings.drop_extra_slots {
                &&& located.pending() == Request::FetchSlotNames
                &&& located.next(Reply::SlotNames(names)).pending() == Request::Disconnect
                &&& match names {
                    Some(names) => located.next(Reply::SlotNames(Some(names))).next(
                        Reply::Done,
                    ).phase == (CyclePhase::ListLocal { slots, safe_lsn, names }),
                    None => goes_on(
                        located.next(Reply::SlotNames(None)).next(Reply::Done),
                        slots,
                        safe_lsn,
                    ),
                }
            } else {
                &&& located.pending() == Request::Disconnect
                &&& goes_on(located.next(Reply::Done), slots, safe_lsn)
            }
        }),
{
}

/// The cycle goes on to the slots, or ends if there are none.
pub open spec fn goes_on(cycle: SyncCycle, slots: Vec<RemoteSlot>, safe_lsn: u64) -> bool {
    if slots@.len() == 0 {
        ends_with(cycle, CycleEnd::NothingToDo)
    } else {
        &&& cycle.phase == (CyclePhase::ReadWalEnd { slots, safe_lsn })
        &&& cycle.pending() == Request::ReadLatestWalEnd
    }
}

/// A logical slot that is in use, that no process has, and whose name is not among those of the
/// primary.
pub open spec fn may_go(slot: LocalSlot, names: Seq<Seq<char>>) -> bool {
    slot.in_use && slot.active_pid == 0 && slot.database != INVALID_OID && !names.contains(
        slot.name@,
    )
}

/// As long as a logical slot is listed that is in use, that no process has, and that the primary
/// does not have, the first such slot is dropped, and the slots are listed again. Only when none
/// is left the cycle goes on.
pub proof fn every_extra_slot_is_dropped(
    cycle: SyncCycle,
    slots: Vec<RemoteSlot>,
    safe_lsn: u64,
    names: Vec<String>,
    local: Vec<LocalSlot>,
    i: int,
)
    requires
        cycle.phase == (CyclePhase::ListLocal { slots, safe_lsn, names }),
    ensures
        cycle.pending() == Request::ListLocalSlots,
        ({
            let after = cycle.next(Reply::LocalSlots(local));
            let wanted = name_views(names@);
            &&& 0 <= i < local@.len() && may_go(local@[i], wanted) && (forall|j: int|
                0 <= j < i ==> !may_go(#[trigger] local@[j], wanted)) ==> {
                &&& after.pending() == (Request::DropLocalSlot { name: &local@[i].name })
                &&& after.next(Reply::Done).phase == cycle.phase
            }
            &&& (forall|j: int| 0 <= j < local@.len() ==> !may_go(#[trigger] local@[j], wanted))
                ==> goes_on(after, slots, safe_lsn)
        }),
{
    let wanted = name_views(names@);
    lemma_first_extra(local@, wanted);
    let extra = first_extra(local@, wanted) as int;
    assert forall|j: int| 0 <= j < local@.len() implies is_extra(#[trigger] local@[j], wanted)
        == may_go(local@[j], wanted) by {}
    if 0 <= i < local@.len() && may_go(local@[i], wanted) && (forall|j: int|
        0 <= j < i ==> !may_go(#[trigger] local@[j], wanted)) {
        if extra < i {
            assert(is_extra(local@[extra], wanted));
        } else if i < extra {
            assert(is_extra(local@[i], wanted));
        }
    }
    if forall|j: int| 0 <= j < local@.len() ==> !may_go(#[trigger] local@[j], wanted) {
        if extra < local@.len() {
            assert(is_extra(local@[extra], wanted));
        }
    }
}

/// Slots are gone through only where the primary knows a position of this standby, this standby
/// knows the end of the log, and that is not before the oldest position that the slots ask for.
/// Which of these fails is told.
pub proof fn positions_decide(
    cycle: SyncCycle,
    slots: Vec<RemoteSlot>,
    safe_lsn: u64,
    wal_end: u64,
)
    requires
        cycle.phase == (CyclePhase::ReadWalEnd { slots, safe_lsn }),
        slots@.len() > 0,
    ensures
        ({
            let after = cycle.next(Reply::LatestWalEnd(wal_end));
            let oldest = oldest_after_unset(restart_lsns(slots@));
            &&& safe_lsn == 0 || wal_end == 0 ==> ends_with(after, CycleEnd::FeedbackNotSent)
            &&& safe_lsn == 0 || wal_end == 0 || wal_end < oldest ==> !after.was_lsn_safe
            &&& safe_lsn > 0 && 0 < wal_end < oldest ==> ends_with(
                after,
                CycleEnd::AheadOfStandby { oldest, wal_end },
            )
            &&& safe_lsn > 0 && wal_end > 0 && oldest <= wal_end ==> {
                &&& after.pending() == Request::ReadReceivedLsn
                &&& after.phase == (CyclePhase::ReadReceived { slots, oldest, index: 0 })
                &&& after.was_lsn_safe == cycle.was_lsn_safe
            }
        }),
{
}

/// The restart positions are those of the slots, in their order.
pub proof fn restart_positions_are_those_of_the_slots(slots: Seq<RemoteSlot>)
    ensures
        restart_lsns(slots).len() == slots.len(),
        forall|i: int|
            0 <= i < slots.len() ==> #[trigger] restart_lsns(slots)[i] == slots[i].restart_lsn,
{
}

/// A slot is synchronized as the primary has it, but for its positions: the restart position is
/// no further than the oldest, and the confirmed one no further than this standby has the log.
pub proof fn slot_is_begun_as_fetched(
    cycle: SyncCycle,
    slots: Vec<RemoteSlot>,
    oldest: u64,
    index: usize,
    received: u64,
)
    requires
        cycle.phase == (CyclePhase::ReadReceived { slots, oldest, index }),
        index < slots@.len(),
    ensures
        ({
            let after = cycle.next(Reply::ReceivedLsn(received));
            let slot = slots@[index as int];
            &&& cycle.pending() == Request::ReadReceivedLsn
            &&& after.phase == (CyclePhase::Synchronize {
                slots,
                oldest,
                index,
                sync: SlotSync::starting(
                    repositioned(
                        slot,
                        lower(slot.restart_lsn, oldest),
                        lower(slot.confirmed_lsn, received),
                        slot.catalog_xmin,
                    ),
                ),
            })
        }),
{
}

/// While a slot is synchronized, its synchronization is what asks. When it has ended, however it
/// did, the next slot is begun; after the last one the cycle ends with the slots synchronized.
pub proof fn next_slot_is_begun_whatever_the_outcome(
    cycle: SyncCycle,
    slots: Vec<RemoteSlot>,
    oldest: u64,
    index: usize,
    sync: SlotSync,
    reply: Reply,
)
    requires
        cycle.phase == (CyclePhase::Synchronize { slots, oldest, index, sync }),
        index < slots@.len(),
    ensures
        cycle.pending() == sync.pending(),
        ({
            let after = cycle.next(reply);
            if sync.next(reply).phase is Finished {
                if index + 1 < slots@.len() {
                    &&& after.phase == (CyclePhase::ReadReceived {
                        slots,
                        oldest,
                        index: (index + 1) as usize,
                    })
                    &&& after.was_lsn_safe == cycle.was_lsn_safe
                } else {
                    &&& ends_with(
                        after,
                        CycleEnd::Synchronized { resumed: !cycle.was_lsn_safe },
                    )
                    &&& after.was_lsn_safe
                }
            } else {
                &&& after.phase == (CyclePhase::Synchronize {
                    slots,
                    oldest,
                    index,
                    sync: sync.next(reply),
                })
                &&& after.was_lsn_safe == cycle.was_lsn_safe
            }
        }),
{
    assert(slots.len() == slots@.len());
}

spec fn begun_ok(cycle: SyncCycle, begun: nat) -> bool {
    begun > 0 ==> match cycle.phase {
        CyclePhase::ReadReceived { .. } | CyclePhase::Synchronize { .. } => true,
        CyclePhase::Finished { end } => end is Synchronized,
        _ => false,
    }
}

proof fn lemma_begun_run(cycle: SyncCycle, replies: Seq<Reply>)
    requires
        cycle.phase is Connect,
    ensures
        begun_ok(cycle_run(cycle, replies), slots_begun(cycle, replies).len()),
    decreases replies.len(),
{
    if replies.len() > 0 {
        lemma_begun_run(cycle, replies.drop_last());
    }
}

/// Once a cycle has begun with the first slot, it ends only with the slots synchronized, and then
/// every slot that was fetched was begun, whatever came of each.
pub proof fn begun_cycle_goes_to_the_end(cycle: SyncCycle, replies: Seq<Reply>)
    requires
        cycle.phase is Connect,
        slots_begun(cycle, replies).len() > 0,
        cycle_run(cycle, replies).phase is Finished,
    ensures
        cycle_run(cycle, replies).phase->end is Synchronized,
        slots_fetched(cycle, replies) is Some,
        slots_begun(cycle, replies).len() == slots_fetched(cycle, replies)->0.len(),
{
    lemma_begun_run(cycle, replies);
    cycle_goes_through_all_slots(cycle, replies);
}

/// The position up to which the standby told, when each slot was begun, that it has the log.
pub open spec fn received_when_begun(cycle: SyncCycle, replies: Seq<Reply>) -> Seq<u64>
    decreases replies.len(),
{
    if replies.len() == 0 {
        Seq::empty()
    } else {
        let head = replies.drop_last();
        match (cycle_run(cycle, head).phase, replies.last()) {
            (CyclePhase::ReadReceived { .. }, Reply::ReceivedLsn(received)) => received_when_begun(
                cycle,
                head,
            ).push(received),
            _ => received_when_begun(cycle, head),
        }
    }
}

spec fn exactly_begun(
    begun: Seq<RemoteSlot>,
    fetched: Seq<RemoteSlot>,
    received: Seq<u64>,
) -> bool {
    &&& begun.len() == received.len() <= fetched.len()
    &&& forall|i: int|
        0 <= i < begun.len() ==> #[trigger] begun[i] == repositioned(
            fetched[i],
            lower(fetched[i].restart_lsn, oldest_after_unset(restart_lsns(fetched))),
            lower(fetched[i].confirmed_lsn, received[i]),
            fetched[i].catalog_xmin,
        )
}

spec fn exact_ok(
    cycle: SyncCycle,
    fetched: Option<Seq<RemoteSlot>>,
    begun: Seq<RemoteSlot>,
    received: Seq<u64>,
) -> bool {
    &&& begun.len() == received.len()
    &&& begun.len() > 0 ==> fetched is Some && exactly_begun(begun, fetched->0, received)
    &&& match cycle.phase {
        CyclePhase::Connect { .. } | CyclePhase::FetchSlots { .. } | CyclePhase::Abandon =>
            begun.len() == 0,
        CyclePhase::FetchOwnLsn { slots, .. } | CyclePhase::FetchNames { slots, .. }
        | CyclePhase::Disconnect { slots, .. } | CyclePhase::ListLocal { slots, .. }
        | CyclePhase::DropLocal { slots, .. } | CyclePhase::ReadWalEnd { slots, .. } => fetched
            == Some(slots@) && begun.len() == 0,
        CyclePhase::ReadReceived { slots, oldest, index } => {
            &&& fetched == Some(slots@)
            &&& begun.len() == index < slots@.len()
            &&& oldest == oldest_after_unset(restart_lsns(slots@))
        },
        CyclePhase::Synchronize { slots, oldest, index, .. } => {
            &&& fetched == Some(slots@)
            &&& begun.len() == index + 1 <= slots@.len()
            &&& oldest == oldest_after_unset(restart_lsns(slots@))
        },
        CyclePhase::Finished { .. } => true,
    }
}

proof fn lemma_exact_run(cycle: SyncCycle, replies: Seq<Reply>)
    requires
        cycle.phase is Connect,
    ensures
        exact_ok(
            cycle_run(cycle, replies),
            slots_fetched(cycle, replies),
            slots_begun(cycle, replies),
            received_when_begun(cycle, replies),
        ),
    decreases replies.len(),
{
    if replies.len() > 0 {
        let head = replies.drop_last();
        lemma_exact_run(cycle, head);
        let before = cycle_run(cycle, head);
        match before.phase {
            CyclePhase::Synchronize { slots, oldest, index, sync } => {
                assert(slots.len() == slots@.len());
                next_slot_is_begun_whatever_the_outcome(
                    before,
                    slots,
                    oldest,
                    index,
                    sync,
                    replies.last(),
                );
            },
            CyclePhase::ReadReceived { slots, oldest, index } => {
                if let Reply::ReceivedLsn(received) = replies.last() {
                    slot_is_begun_as_fetched(before, slots, oldest, index, received);
                    let begun = slots_begun(cycle, replies);
                    let earlier = slots_begun(cycle, head);
                    let told = received_when_begun(cycle, replies);
                    assert(begun.len() == earlier.len() + 1);
                    assert(told.len() == begun.len());
                    assert forall|i: int| 0 <= i < begun.len() implies #[trigger] begun[i]
                        == repositioned(
                        slots@[i],
                        lower(slots@[i].restart_lsn, oldest),
                        lower(slots@[i].confirmed_lsn, told[i]),
                        slots@[i].catalog_xmin,
                    ) by {
                        if i < earlier.len() {
                            assert(begun[i] == earlier[i]);
                            assert(told[i] == received_when_begun(cycle, head)[i]);
                        }
                    }
                }
            },
            _ => {},
        }
    }
}

/// Each slot of a cycle is begun as it was fetched, in its place, with its restart position no
/// further than the oldest of the fetched ones, and its confirmed position no further than the
/// standby told then that it has the log.
pub proof fn slots_are_begun_as_fetched(cycle: SyncCycle, replies: Seq<Reply>, i: int)
    requires
        cycle.phase is Connect,
        0 <= i < slots_begun(cycle, replies).len(),
    ensures
        ({
            let fetched = slots_fetched(cycle, replies)->0;
            &&& slots_fetched(cycle, replies) is Some
            &&& i < fetched.len()
            &&& i < received_when_begun(cycle, replies).len()
            &&& slots_begun(cycle, replies)[i] == repositioned(
                fetched[i],
                lower(fetched[i].restart_lsn, oldest_after_unset(restart_lsns(fetched))),
                lower(fetched[i].confirmed_lsn, received_when_begun(cycle, replies)[i]),
                fetched[i].catalog_xmin,
            )
        }),
{
    lemma_exact_run(cycle, replies);
}

/// The time to sleep after a cycle is the usual one; where the positions were found not to be
/// safe, it is no longer than ten seconds.
pub proof fn sleep_is_the_usual_one(cycle: SyncCycle, end: CycleEnd)
    ensures
        end is FeedbackNotSent || end is AheadOfStandby ==> {
            &&& cycle.sleep_after(end) <= cycle.sleep_time
            &&& cycle.sleep_after(end) <= 10_000
            &&& cycle.sleep_after(end) == cycle.sleep_time || cycle.sleep_after(end) == 10_000
        },
        end !is FeedbackNotSent && end !is AheadOfStandby ==> cycle.sleep_after(end)
            == cycle.sleep_time,
{
}

} // verus!
