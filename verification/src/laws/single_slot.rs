//! The synchronization of a single slot: what is asked, and where the slot is moved to.

use crate::laws::catchup::{answers, is_as_reported, repositioned};
use crate::laws::slots::{is_caught_up, slot_run};
use crate::pg_compat::xid_precedes;
use crate::remote::RemoteSlot;
use crate::server::{LocalSlot, Reply, Request, SlotOutcome, SlotPosition};
use crate::slot_sync::{CatchupPhase, CatchupWait, SlotPhase, SlotSync};
use vstd::prelude::*;

verus! {

/// The slot needs log or catalog rows from before what the local slot holds on to.
pub open spec fn reaches_back(slot: RemoteSlot, position: SlotPosition) -> bool {
    ||| slot.restart_lsn < position.restart_lsn
    ||| xid_precedes(slot.catalog_xmin, position.catalog_xmin)
}

/// A reply to anything but the request changes nothing.
pub proof fn slot_heeds_only_answers(sync: SlotSync, reply: Reply)
    requires
        !answers(sync.pending(), reply),
        sync.pending() !is Nothing,
    ensures
        sync.next(reply) == sync,
{
}

/// Whether to go on is asked first: in recovery a transaction is begun and the local slots are
/// listed, outside of it nothing is done.
pub proof fn slot_is_begun_in_recovery(slot: RemoteSlot)
    ensures
        ({
            let sync = SlotSync::starting(slot);
            let begun = sync.next(Reply::InRecovery(true));
            let ended = sync.next(Reply::InRecovery(false));
            &&& sync.pending() == Request::CheckRecovery
            &&& begun.pending() == Request::BeginTransaction
            &&& begun.next(Reply::Done).pending() == Request::ListLocalSlots
            &&& begun.next(Reply::Done).slot == slot
            &&& ended.phase == (SlotPhase::Finished { outcome: SlotOutcome::NotInRecovery })
        }),
{
}

/// A slot in use of that name is listed.
pub open spec fn is_listed(slots: Seq<LocalSlot>, name: Seq<char>) -> bool {
    exists|i: int| 0 <= i < slots.len() && (#[trigger] slots[i]).in_use && slots[i].name@ == name
}

/// A slot of that name that is in use is acquired. Without one, a slot is created: for the
/// database and the plugin of the primary's.
pub proof fn slot_is_acquired_or_created(sync: SlotSync, slots: Vec<LocalSlot>)
    requires
        sync.pending() is ListLocalSlots,
    ensures
        ({
            let after = sync.next(Reply::LocalSlots(slots));
            &&& after.slot == sync.slot
            &&& is_listed(slots@, sync.slot.name@) ==> after.pending() == (Request::AcquireSlot {
                name: &sync.slot.name,
            })
            &&& !is_listed(slots@, sync.slot.name@) ==> after.pending() == (Request::CreateSlot {
                slot: &sync.slot,
            })
        }),
{
}

/// An existing slot is moved to exactly where the primary's is and saved, unless that reaches
/// back before what the slot holds on to: then it is left alone. Either way it is released and
/// the transaction committed.
pub proof fn existing_slot_follows_the_primary(sync: SlotSync, position: SlotPosition)
    requires
        sync.pending() is AcquireSlot,
    ensures
        ({
            let after = sync.next(Reply::Position(position));
            if reaches_back(sync.slot, position) {
                releases(after, sync.slot, SlotOutcome::WouldMoveBackward)
            } else {
                &&& after.pending() == (Request::AdvanceSlot { slot: &sync.slot })
                &&& after.next(Reply::Done).pending() == Request::SaveSlot
                &&& releases(
                    after.next(Reply::Done).next(Reply::Done),
                    sync.slot,
                    SlotOutcome::Updated,
                )
            }
        }),
{
}

/// A slot is released with this outcome, the transaction is committed, and that is the end.
pub open spec fn releases(sync: SlotSync, slot: RemoteSlot, outcome: SlotOutcome) -> bool {
    let released = sync.next(Reply::Done);
    let committed = released.next(Reply::Done);
    &&& sync.pending() == (Request::ReleaseSlot { slot: &slot, outcome })
    &&& released.pending() == Request::CommitTransaction
    &&& committed.phase == (SlotPhase::Finished { outcome })
    &&& committed.pending() == Request::Nothing
}

/// A new slot is moved to exactly where the primary's is and made persistent, unless that
/// reaches back before what could be reserved: then the primary is waited for, with that
/// position to reach.
pub proof fn new_slot_follows_the_primary(sync: SlotSync, position: SlotPosition)
    requires
        sync.pending() is CreateSlot,
    ensures
        ({
            let after = sync.next(Reply::Position(position));
            if reaches_back(sync.slot, position) {
                &&& after.slot == sync.slot
                &&& after.phase == (SlotPhase::Catchup {
                    wait: CatchupWait {
                        slot: sync.slot,
                        position,
                        phase: CatchupPhase::Connect,
                    },
                })
                &&& after.pending() == (Request::ConnectDatabase { database: &sync.slot.database })
            } else {
                persists(after, sync.slot)
            }
        }),
{
}

/// A new slot is moved to where the given one is, made persistent and released.
pub open spec fn persists(sync: SlotSync, slot: RemoteSlot) -> bool {
    &&& sync.pending() == (Request::AdvanceSlot { slot: &slot })
    &&& sync.next(Reply::Done).pending() == Request::PersistSlot
    &&& releases(sync.next(Reply::Done).next(Reply::Done), slot, SlotOutcome::Created)
}

/// While the primary is waited for, the wait is what asks. A new slot is then moved to exactly
/// where the wait has brought it and made persistent, or given up if the wait ended without
/// success.
pub proof fn new_slot_goes_by_its_wait(sync: SlotSync, wait: CatchupWait, reply: Reply)
    requires
        sync.phase == (SlotPhase::Catchup { wait }),
    ensures
        sync.pending() == wait.pending(),
        ({
            let after = sync.next(reply);
            let waited = wait.next(reply);
            match waited.phase {
                CatchupPhase::Finished { result } => if result is CaughtUp {
                    persists(after, waited.slot)
                } else {
                    releases(after, sync.slot, SlotOutcome::NotCaughtUp)
                },
                _ => after.slot == sync.slot && after.phase == (SlotPhase::Catchup {
                    wait: waited,
                }),
            }
        }),
{
}

// ---------------------------------------------------------------------------
// Over every series of replies
// ---------------------------------------------------------------------------

/// The position that the local slot told last in the course of a series of replies.
pub open spec fn told_position(sync: SlotSync, replies: Seq<Reply>) -> Option<SlotPosition>
    decreases replies.len(),
{
    if replies.len() == 0 {
        None
    } else {
        let head = replies.drop_last();
        match (slot_run(sync, head).pending(), replies.last()) {
            (Request::AcquireSlot { .. }, Reply::Position(position)) => Some(position),
            (Request::CreateSlot { .. }, Reply::Position(position)) => Some(position),
            _ => told_position(sync, head),
        }
    }
}

/// The slot that the primary reported last, by name, in the course of a series of replies.
pub open spec fn slot_reported(sync: SlotSync, replies: Seq<Reply>) -> Option<RemoteSlot>
    decreases replies.len(),
{
    if replies.len() == 0 {
        None
    } else {
        let head = replies.drop_last();
        match (slot_run(sync, head).pending(), replies.last()) {
            (Request::FetchNamedSlot { .. }, Reply::RemoteSlots(Some(slots))) => if slots@.len()
                > 0 {
                Some(slots@[0])
            } else {
                slot_reported(sync, head)
            },
            _ => slot_reported(sync, head),
        }
    }
}

/// The position up to which the standby told last that it has the log.
pub open spec fn slot_received(sync: SlotSync, replies: Seq<Reply>) -> Option<u64>
    decreases replies.len(),
{
    if replies.len() == 0 {
        None
    } else {
        let head = replies.drop_last();
        match (slot_run(sync, head).pending(), replies.last()) {
            (Request::ReadReceivedLsn, Reply::ReceivedLsn(received)) => Some(received),
            _ => slot_received(sync, head),
        }
    }
}

/// Where a slot is moved to: where no wait was needed, to exactly the slot that the
/// synchronization was started with; after a wait, to what the primary reported last, as far as
/// the standby has the log, with nothing else of the slot changed.
pub open spec fn is_target(
    target: RemoteSlot,
    slot: RemoteSlot,
    told: Option<SlotPosition>,
    reported: Option<RemoteSlot>,
    received: Option<u64>,
) -> bool {
    &&& told is Some
    &&& !reaches_back(target, told->0)
    &&& if reaches_back(slot, told->0) {
        &&& is_as_reported(target, reported, received)
        &&& target == repositioned(
            slot,
            target.restart_lsn,
            target.confirmed_lsn,
            target.catalog_xmin,
        )
    } else {
        target == slot
    }
}

spec fn wait_at(
    wait: CatchupWait,
    slot: RemoteSlot,
    reported: Option<RemoteSlot>,
    received: Option<u64>,
) -> bool {
    &&& match wait.phase {
        CatchupPhase::ReadReceived { found } => reported == Some(found),
        CatchupPhase::Sleep { found } => is_as_reported(found, reported, received),
        _ => is_caught_up(wait) ==> is_as_reported(wait.slot, reported, received),
    }
    &&& if is_caught_up(wait) {
        &&& !reaches_back(wait.slot, wait.position)
        &&& wait.slot == repositioned(
            slot,
            wait.slot.restart_lsn,
            wait.slot.confirmed_lsn,
            wait.slot.catalog_xmin,
        )
    } else {
        wait.slot == slot
    }
}

spec fn target_ok(
    sync: SlotSync,
    slot: RemoteSlot,
    told: Option<SlotPosition>,
    reported: Option<RemoteSlot>,
    received: Option<u64>,
) -> bool {
    match sync.phase {
        SlotPhase::Catchup { wait } => {
            &&& sync.slot == slot
            &&& told == Some(wait.position)
            &&& reaches_back(slot, wait.position)
            &&& wait_at(wait, slot, reported, received)
        },
        SlotPhase::Advance { .. } | SlotPhase::Store { .. } => is_target(
            sync.slot,
            slot,
            told,
            reported,
            received,
        ),
        SlotPhase::Release { outcome } | SlotPhase::Commit { outcome } | SlotPhase::Finished {
            outcome,
        } => if outcome is Updated || outcome is Created {
            is_target(sync.slot, slot, told, reported, received)
        } else {
            sync.slot == slot
        },
        _ => sync.slot == slot,
    }
}

proof fn lemma_target_run(slot: RemoteSlot, replies: Seq<Reply>)
    ensures
        ({
            let start = SlotSync::starting(slot);
            target_ok(
                slot_run(start, replies),
                slot,
                told_position(start, replies),
                slot_reported(start, replies),
                slot_received(start, replies),
            )
        }),
    decreases replies.len(),
{
    if replies.len() > 0 {
        lemma_target_run(slot, replies.drop_last());
        let before = slot_run(SlotSync::starting(slot), replies.drop_last());
        lemma_target_step(
            before,
            replies.last(),
            slot,
            told_position(SlotSync::starting(slot), replies.drop_last()),
            slot_reported(SlotSync::starting(slot), replies.drop_last()),
            slot_received(SlotSync::starting(slot), replies.drop_last()),
        );
    }
}

spec fn told_after(sync: SlotSync, reply: Reply, told: Option<SlotPosition>) -> Option<SlotPosition> {
    match (sync.pending(), reply) {
        (Request::AcquireSlot { .. }, Reply::Position(position)) => Some(position),
        (Request::CreateSlot { .. }, Reply::Position(position)) => Some(position),
        _ => told,
    }
}

spec fn reported_after(sync: SlotSync, reply: Reply, reported: Option<RemoteSlot>) -> Option<
    RemoteSlot,
> {
    match (sync.pending(), reply) {
        (Request::FetchNamedSlot { .. }, Reply::RemoteSlots(Some(slots))) => if slots@.len() > 0 {
            Some(slots@[0])
        } else {
            reported
        },
        _ => reported,
    }
}

spec fn received_after(sync: SlotSync, reply: Reply, received: Option<u64>) -> Option<u64> {
    match (sync.pending(), reply) {
        (Request::ReadReceivedLsn, Reply::ReceivedLsn(lsn)) => Some(lsn),
        _ => received,
    }
}

proof fn lemma_target_step(
    sync: SlotSync,
    reply: Reply,
    slot: RemoteSlot,
    told: Option<SlotPosition>,
    reported: Option<RemoteSlot>,
    received: Option<u64>,
)
    requires
        target_ok(sync, slot, told, reported, received),
    ensures
        target_ok(
            sync.next(reply),
            slot,
            told_after(sync, reply, told),
            reported_after(sync, reply, reported),
            received_after(sync, reply, received),
        ),
{
}

/// A slot is moved to exactly where the primary's is: where no wait was needed, the slot that is
/// to be moved to is the very slot that the synchronization was started with, with its restart
/// position, its confirmed position and its catalog xmin; after a wait, these are what the
/// primary reported last, as far as the standby has the log. What is then told on release is the
/// same slot.
pub proof fn slot_is_moved_to_where_the_primary_is(slot: RemoteSlot, replies: Seq<Reply>)
    ensures
        ({
            let start = SlotSync::starting(slot);
            let sync = slot_run(start, replies);
            let told = told_position(start, replies);
            let reported = slot_reported(start, replies);
            let received = slot_received(start, replies);
            &&& sync.pending() matches Request::AdvanceSlot { slot: target } ==> is_target(
                *target,
                slot,
                told,
                reported,
                received,
            )
            &&& sync.pending() matches Request::ReleaseSlot { slot: target, outcome } ==> if outcome
                is Updated || outcome is Created {
                is_target(*target, slot, told, reported, received)
            } else {
                *target == slot
            }
            &&& sync.pending() matches Request::AcquireSlot { name } ==> *name == slot.name
            &&& sync.pending() matches Request::CreateSlot { slot: made } ==> *made == slot
            &&& sync.pending() matches Request::FetchNamedSlot { name } ==> *name == slot.name
            &&& sync.pending() matches Request::ConnectDatabase { database } ==> *database
                == slot.database
        }),
{
    lemma_target_run(slot, replies);
}

} // verus!
