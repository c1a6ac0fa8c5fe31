//! The wait for the primary's slot: what is asked, and what is handed on.

use crate::laws::slots::{catchup_run, is_caught_up};
use crate::pg_compat::xid_precedes;
use crate::remote::RemoteSlot;
use crate::server::{CatchupResult, Reply, Request, SlotPosition};
use crate::slot_sync::{CatchupPhase, CatchupWait};
use vstd::prelude::*;

verus! {

/// The lower of two positions.
pub open spec fn lower(a: u64, b: u64) -> u64 {
    if a <= b {
        a
    } else {
        b
    }
}

/// The reply is one to the request.
pub open spec fn answers(request: Request<'_>, reply: Reply) -> bool {
    match request {
        Request::CheckInterrupts => reply is Done,
        Request::CheckRecovery => reply is InRecovery,
        Request::ReadSettings => reply is Settings,
        Request::CheckReload => reply is ReloadPending,
        Request::ReloadConfig => reply is Done,
        Request::ReadStandbyStatus => reply is StandbyStatus,
        Request::ConnectMaintenance { .. } => reply is Connected,
        Request::ConnectDatabase { .. } => reply is Connected,
        Request::FetchConfiguredSlots { .. } => reply is RemoteSlots,
        Request::FetchNamedSlot { .. } => reply is RemoteSlots,
        Request::FetchSlotNames => reply is SlotNames,
        Request::FetchSlotLsn { .. } => reply is SlotLsn,
        Request::Disconnect => reply is Done,
        Request::ListLocalSlots => reply is LocalSlots,
        Request::DropLocalSlot { .. } => reply is Done,
        Request::ReadLatestWalEnd => reply is LatestWalEnd,
        Request::ReadReceivedLsn => reply is ReceivedLsn,
        Request::BeginTransaction => reply is Done,
        Request::AcquireSlot { .. } => reply is Position,
        Request::CreateSlot { .. } => reply is Position,
        Request::AdvanceSlot { .. } => reply is Done,
        Request::SaveSlot => reply is Done,
        Request::PersistSlot => reply is Done,
        Request::ReleaseSlot { .. } => reply is Done,
        Request::CommitTransaction => reply is Done,
        Request::WaitForRetry { .. } => reply is Woken,
        Request::SleepUntilNextCycle { .. } => reply is Woken,
        Request::ReadOwnSlot => reply is OwnSlot,
        Request::ReadClock => reply is Time,
        Request::WaitForConfirmation { .. } => reply is Woken,
        Request::ReadTimeout => reply is Timeout,
        Request::Exit { .. } => false,
        Request::Nothing => false,
    }
}

/// A reply to anything but the request changes nothing, and neither does one after the end.
pub proof fn catchup_heeds_only_answers(wait: CatchupWait, reply: Reply)
    requires
        !answers(wait.pending(), reply),
    ensures
        wait.next(reply) == wait,
{
}

/// What a wait asks, from one reply to the next: it connects to the database of its slot; before
/// each look at the primary's slot it acts on interrupts and asks whether the server is still in
/// recovery; it looks by the name of its slot; between two looks it sleeps; it closes a
/// connection that it has. Only what it finds changes its slot.
pub proof fn catchup_asks_in_turn(wait: CatchupWait, slot: RemoteSlot, position: SlotPosition)
    ensures
        CatchupWait::starting(slot, position).pending() == (Request::ConnectDatabase {
            database: &slot.database,
        }),
        CatchupWait::starting(slot, position).slot == slot,
        CatchupWait::starting(slot, position).position == position,
        wait.pending() is ConnectDatabase ==> {
            let connected = wait.next(Reply::Connected(true));
            let not_connected = wait.next(Reply::Connected(false));
            &&& connected.pending() == Request::CheckInterrupts
            &&& connected.slot == wait.slot && connected.position == wait.position
            &&& not_connected.phase == (CatchupPhase::Finished {
                result: CatchupResult::CannotConnect,
            })
            &&& not_connected.slot == wait.slot
        },
        wait.pending() is CheckInterrupts ==> {
            let after = wait.next(Reply::Done);
            &&& after.pending() == Request::CheckRecovery
            &&& after.slot == wait.slot && after.position == wait.position
        },
        wait.pending() is CheckRecovery ==> {
            let in_recovery = wait.next(Reply::InRecovery(true));
            let promoted = wait.next(Reply::InRecovery(false));
            &&& in_recovery.pending() == (Request::FetchNamedSlot { name: &wait.slot.name })
            &&& in_recovery.slot == wait.slot && in_recovery.position == wait.position
            &&& promoted.pending() == Request::Disconnect
            &&& promoted.next(Reply::Done).phase == (CatchupPhase::Finished {
                result: CatchupResult::Promoted,
            })
            &&& promoted.next(Reply::Done).slot == wait.slot
        },
        wait.pending() is FetchNamedSlot ==> {
            let failed = wait.next(Reply::RemoteSlots(None));
            &&& failed.pending() == Request::Disconnect
            &&& failed.next(Reply::Done).phase == (CatchupPhase::Finished {
                result: CatchupResult::FetchFailed,
            })
            &&& failed.next(Reply::Done).slot == wait.slot
        },
        wait.pending() is WaitForRetry ==> {
            let woken = wait.next(Reply::Woken { postmaster_died: false });
            let alone = wait.next(Reply::Woken { postmaster_died: true });
            &&& woken.pending() == Request::CheckInterrupts
            &&& woken.slot == wait.slot && woken.position == wait.position
            &&& alone.pending() == (Request::Exit { code: 1, timed_out: false })
        },
        wait.pending() is Disconnect ==> wait.next(Reply::Done).pending() == Request::Nothing,
{
}

/// The slot as it is at other positions.
pub open spec fn repositioned(slot: RemoteSlot, restart: u64, confirmed: u64, xmin: u32) -> RemoteSlot {
    RemoteSlot { restart_lsn: restart, confirmed_lsn: confirmed, catalog_xmin: xmin, ..slot }
}

/// What comes of a look at the primary's slot. An empty answer ends the wait. Otherwise the first
/// slot of the answer counts, with its positions no further than this standby has the log: if its
/// log and its catalog rows then reach back no further than the local slot holds on to, the wait
/// ends and its slot has just these positions; else it goes on, with what was found told.
pub proof fn look_decides(wait: CatchupWait, slots: Vec<RemoteSlot>, received: u64)
    requires
        wait.pending() is FetchNamedSlot,
    ensures
        slots@.len() == 0 ==> {
            let after = wait.next(Reply::RemoteSlots(Some(slots)));
            &&& after.pending() == Request::Disconnect
            &&& after.next(Reply::Done).phase == (CatchupPhase::Finished {
                result: CatchupResult::SlotGone,
            })
            &&& after.next(Reply::Done).slot == wait.slot
        },
        slots@.len() > 0 ==> {
            let found = slots@[0];
            let restart = lower(found.restart_lsn, received);
            let confirmed = lower(found.confirmed_lsn, received);
            let asked = wait.next(Reply::RemoteSlots(Some(slots)));
            let after = asked.next(Reply::ReceivedLsn(received));
            &&& asked.pending() == Request::ReadReceivedLsn
            &&& if restart >= wait.position.restart_lsn && !xid_precedes(
                found.catalog_xmin,
                wait.position.catalog_xmin,
            ) {
                &&& after.pending() == Request::Disconnect
                &&& after.next(Reply::Done).phase == (CatchupPhase::Finished {
                    result: CatchupResult::CaughtUp,
                })
                &&& after.next(Reply::Done).slot == repositioned(
                    wait.slot,
                    restart,
                    confirmed,
                    found.catalog_xmin,
                )
            } else {
                &&& after.slot == wait.slot
                &&& after.pending() matches Request::WaitForRetry { found: told, position }
                    && *told == repositioned(found, restart, confirmed, found.catalog_xmin)
                    && position == wait.position
            }
        },
{
}

/// The slot that the primary reported last in the course of a series of replies.
pub open spec fn last_reported(wait: CatchupWait, replies: Seq<Reply>) -> Option<RemoteSlot>
    decreases replies.len(),
{
    if replies.len() == 0 {
        None
    } else {
        let head = replies.drop_last();
        match (catchup_run(wait, head).pending(), replies.last()) {
            (Request::FetchNamedSlot { .. }, Reply::RemoteSlots(Some(slots))) => if slots@.len()
                > 0 {
                Some(slots@[0])
            } else {
                last_reported(wait, head)
            },
            _ => last_reported(wait, head),
        }
    }
}

/// The position up to which the standby told last that it has the log.
pub open spec fn last_received(wait: CatchupWait, replies: Seq<Reply>) -> Option<u64>
    decreases replies.len(),
{
    if replies.len() == 0 {
        None
    } else {
        let head = replies.drop_last();
        match (catchup_run(wait, head).pending(), replies.last()) {
            (Request::ReadReceivedLsn, Reply::ReceivedLsn(received)) => Some(received),
            _ => last_received(wait, head),
        }
    }
}

/// The slot has the positions that the primary reported last, each as far as the standby told
/// last that it has the log.
pub open spec fn is_as_reported(
    slot: RemoteSlot,
    reported: Option<RemoteSlot>,
    received: Option<u64>,
) -> bool {
    &&& reported is Some && received is Some
    &&& slot.restart_lsn == lower(reported->0.restart_lsn, received->0)
    &&& slot.confirmed_lsn == lower(reported->0.confirmed_lsn, received->0)
    &&& slot.catalog_xmin == reported->0.catalog_xmin
}

spec fn report_ok(wait: CatchupWait, reported: Option<RemoteSlot>, received: Option<u64>) -> bool {
    match wait.phase {
        CatchupPhase::ReadReceived { found } => reported == Some(found),
        CatchupPhase::Sleep { found } => is_as_reported(found, reported, received),
        _ => is_caught_up(wait) ==> is_as_reported(wait.slot, reported, received),
    }
}

proof fn lemma_report_run(slot: RemoteSlot, position: SlotPosition, replies: Seq<Reply>)
    ensures
        ({
            let start = CatchupWait::starting(slot, position);
            report_ok(
                catchup_run(start, replies),
                last_reported(start, replies),
                last_received(start, replies),
            )
        }),
    decreases replies.len(),
{
    if replies.len() > 0 {
        lemma_report_run(slot, position, replies.drop_last());
    }
}

/// A wait that has caught up hands on the positions that the primary reported last, each as far
/// as the standby told last that it has the log. So nothing counts as confirmed that the
/// subscriber did not confirm to the primary. While it waits, it tells the same of what it found.
pub proof fn caught_up_slot_is_as_reported(
    slot: RemoteSlot,
    position: SlotPosition,
    replies: Seq<Reply>,
)
    ensures
        ({
            let start = CatchupWait::starting(slot, position);
            let wait = catchup_run(start, replies);
            let reported = last_reported(start, replies);
            let received = last_received(start, replies);
            &&& is_caught_up(wait) ==> is_as_reported(wait.slot, reported, received)
                && wait.slot.confirmed_lsn <= reported->0.confirmed_lsn
            &&& wait.pending() matches Request::WaitForRetry { found, .. } ==> is_as_reported(
                *found,
                reported,
                received,
            )
        }),
{
    lemma_report_run(slot, position, replies);
}

} // verus!
