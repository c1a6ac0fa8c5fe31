//! The background worker, over every series of replies.

use crate::guc::Settings;
use crate::laws::catchup::answers;
use crate::laws::cycle::cycle_heeds_only_answers;
use crate::laws::slots::{
    cycle_never_moves_slot_backward, cycle_run, is_slot_run, log_within, position_told,
    reply_within, slot_within, slots_stay_within_received_log,
};
use crate::remote::RemoteSlot;
use crate::server::{CycleEnd, Reply, Request, StandbyStatus};
use crate::slot_sync::{is_behind, CyclePhase, SlotSync, SyncCycle};
use crate::worker::{Worker, WorkerPhase};
use vstd::prelude::*;

verus! {

/// A worker after a series of replies.
pub open spec fn worker_run(worker: Worker, replies: Seq<Reply>) -> Worker
    decreases replies.len(),
{
    if replies.len() == 0 {
        worker
    } else {
        worker_run(worker, replies.drop_last()).next(replies.last())
    }
}

/// A cycle within a worker: started by the reply before index `k`, when the server was in
/// recovery, with what the worker had learned of the safety of positions, and run by the replies
/// since.
pub open spec fn is_cycle_run(
    cycle: SyncCycle,
    replies: Seq<Reply>,
    k: int,
    settings: Settings,
    status: StandbyStatus,
) -> bool {
    let before = worker_run(Worker::starting(), replies.take(k - 1));
    &&& 0 < k <= replies.len()
    &&& before.phase == (WorkerPhase::ReadStatus { settings })
    &&& replies[k - 1] == Reply::StandbyStatus(status)
    &&& cycle == cycle_run(
        SyncCycle::starting(
            settings,
            status,
            settings.worker_nap_time as i64,
            before.was_lsn_safe,
        ),
        replies.skip(k),
    )
}

/// What a worker does in recovery is a synchronization cycle, from its start, by the latest
/// replies: so all that holds of a cycle holds within the worker.
pub proof fn worker_runs_cycles(replies: Seq<Reply>)
    ensures
        worker_run(Worker::starting(), replies).phase matches WorkerPhase::Cycle { cycle }
            ==> exists|k: int, settings: Settings, status: StandbyStatus| #[trigger]
            is_cycle_run(cycle, replies, k, settings, status),
    decreases replies.len(),
{
    if replies.len() > 0 {
        let head = replies.drop_last();
        worker_runs_cycles(head);
        let before = worker_run(Worker::starting(), head);
        let after = worker_run(Worker::starting(), replies);
        if let WorkerPhase::Cycle { cycle } = after.phase {
            match before.phase {
                WorkerPhase::Cycle { cycle: earlier } => {
                    let (k, settings, status) = choose|
                        k: int,
                        settings: Settings,
                        status: StandbyStatus,
                    | #[trigger]
                        is_cycle_run(earlier, head, k, settings, status);
                    assert(replies.skip(k).drop_last() =~= head.skip(k));
                    assert(replies.skip(k).last() == replies.last());
                    assert(replies.take(k - 1) =~= head.take(k - 1));
                    assert(is_cycle_run(cycle, replies, k, settings, status));
                },
                _ => {
                    let k = replies.len() as int;
                    let settings = before.phase->ReadStatus_settings;
                    let status = replies.last()->StandbyStatus_0;
                    assert(replies.skip(k) =~= Seq::<Reply>::empty());
                    assert(replies.take(k - 1) =~= head);
                    assert(is_cycle_run(cycle, replies, k, settings, status));
                },
            }
        }
    }
}

/// Whether the server was found in recovery when it was last asked for by the worker itself.
pub open spec fn recovery_told(replies: Seq<Reply>) -> bool
    decreases replies.len(),
{
    if replies.len() == 0 {
        false
    } else {
        match (worker_run(Worker::starting(), replies.drop_last()).phase, replies.last()) {
            (WorkerPhase::CheckRecovery { .. }, Reply::InRecovery(in_recovery)) => in_recovery,
            _ => recovery_told(replies.drop_last()),
        }
    }
}

/// There is a synchronization cycle only where the server was found in recovery.
pub proof fn cycles_only_in_recovery(replies: Seq<Reply>)
    ensures
        ({
            let phase = worker_run(Worker::starting(), replies).phase;
            phase is ReadStatus || phase is Cycle ==> recovery_told(replies)
        }),
    decreases replies.len(),
{
    if replies.len() > 0 {
        cycles_only_in_recovery(replies.drop_last());
    }
}

/// Outside recovery the worker does nothing but sleep, ten times the usual time.
pub proof fn worker_sleeps_longer_outside_recovery(worker: Worker, settings: Settings)
    requires
        worker.phase == (WorkerPhase::CheckRecovery { settings }),
    ensures
        worker.next(Reply::InRecovery(false)).pending() == (Request::SleepUntilNextCycle {
            ms: (settings.worker_nap_time * 10) as i64,
            end: None,
            report: false,
        }),
{
}

/// A local slot, for which the latest replies told a position, does not go backward when it is
/// moved to `target`.
pub open spec fn moves_forward(
    target: RemoteSlot,
    replies: Seq<Reply>,
    k: int,
    slot: RemoteSlot,
) -> bool {
    &&& 0 <= k <= replies.len()
    &&& position_told(SlotSync::starting(slot), replies.skip(k)) matches Some(position)
        && !is_behind(target, position)
}

/// Whatever the worker is replied, no slot is ever moved backward.
pub proof fn worker_never_moves_slot_backward(replies: Seq<Reply>)
    ensures
        worker_run(Worker::starting(), replies).pending() matches Request::AdvanceSlot {
            slot: target,
        } ==> exists|k: int, slot: RemoteSlot| #[trigger] moves_forward(*target, replies, k, slot),
{
    let worker = worker_run(Worker::starting(), replies);
    if let WorkerPhase::Cycle { cycle } = worker.phase {
        worker_runs_cycles(replies);
        let (k, settings, status) = choose|k: int, settings: Settings, status: StandbyStatus|
         #[trigger]
            is_cycle_run(cycle, replies, k, settings, status);
        let started = SyncCycle::starting(
            settings,
            status,
            settings.worker_nap_time as i64,
            worker_run(Worker::starting(), replies.take(k - 1)).was_lsn_safe,
        );
        let latest = replies.skip(k);
        cycle_never_moves_slot_backward(started, latest);
        if let Request::AdvanceSlot { slot: target } = worker.pending() {
            let (j, slot) = choose|j: int, slot: RemoteSlot| #[trigger]
                is_slot_run(cycle.phase->sync, latest, j, slot) && (position_told(
                    SlotSync::starting(slot),
                    latest.skip(j),
                ) matches Some(position) && !is_behind(*target, position));
            assert(latest.skip(j) =~= replies.skip(k + j));
            assert(moves_forward(*target, replies, k + j, slot));
        }
    }
}

/// Whatever the worker is replied, no slot is ever moved past what the standby says it has of
/// the log.
pub proof fn worker_stays_within_received_log(replies: Seq<Reply>, bound: u64)
    requires
        log_within(replies, bound),
    ensures
        worker_run(Worker::starting(), replies).pending() matches Request::AdvanceSlot { slot }
            ==> slot_within(*slot, bound),
{
    let worker = worker_run(Worker::starting(), replies);
    if let WorkerPhase::Cycle { cycle } = worker.phase {
        worker_runs_cycles(replies);
        let (k, settings, status) = choose|k: int, settings: Settings, status: StandbyStatus|
         #[trigger]
            is_cycle_run(cycle, replies, k, settings, status);
        let started = SyncCycle::starting(
            settings,
            status,
            settings.worker_nap_time as i64,
            worker_run(Worker::starting(), replies.take(k - 1)).was_lsn_safe,
        );
        let latest = replies.skip(k);
        assert forall|i: int| 0 <= i < latest.len() implies reply_within(
            #[trigger] latest[i],
            bound,
        ) by {
            assert(latest[i] == replies[k + i]);
        }
        slots_stay_within_received_log(started, latest, bound);
    }
}

/// How many skipped cycles were to be logged in the course of a series of replies.
pub open spec fn skips_reported(replies: Seq<Reply>) -> int
    decreases replies.len(),
{
    if replies.len() == 0 {
        0
    } else {
        let before = worker_run(Worker::starting(), replies.drop_last()).phase;
        let after = worker_run(Worker::starting(), replies).phase;
        skips_reported(replies.drop_last()) + if before !is Sleep && (after
            matches WorkerPhase::Sleep { end, report, .. } && end == Some(CycleEnd::Skipped)
            && report) {
            1int
        } else {
            0
        }
    }
}

/// That a cycle is skipped is logged once.
pub proof fn skip_is_reported_once(replies: Seq<Reply>)
    ensures
        skips_reported(replies) == if worker_run(Worker::starting(), replies).skipped {
            1int
        } else {
            0
        },
    decreases replies.len(),
{
    if replies.len() > 0 {
        skip_is_reported_once(replies.drop_last());
    }
}

/// How a cycle ended with the last of a series of replies, if one did.
pub open spec fn ended_with(replies: Seq<Reply>) -> Option<CycleEnd> {
    let before = worker_run(Worker::starting(), replies.drop_last()).phase;
    let after = worker_run(Worker::starting(), replies).phase;
    match after {
        WorkerPhase::Sleep { end, .. } => if replies.len() > 0 && before !is Sleep {
            end
        } else {
            None
        },
        _ => None,
    }
}

/// What the last cycle that told anything of the safety of positions told, in the course of a
/// series of replies: they are safe if the slots were synchronized, and they are not if the
/// standby had not got that far.
pub open spec fn last_safety(replies: Seq<Reply>) -> Option<bool>
    decreases replies.len(),
{
    if replies.len() == 0 {
        None
    } else {
        match ended_with(replies) {
            Some(CycleEnd::Synchronized { .. }) => Some(true),
            Some(CycleEnd::FeedbackNotSent) => Some(false),
            Some(CycleEnd::AheadOfStandby { .. }) => Some(false),
            _ => last_safety(replies.drop_last()),
        }
    }
}

spec fn safety_ok(worker: Worker, safety: Option<bool>) -> bool {
    &&& worker.was_lsn_safe == (safety == Some(true))
    &&& worker.phase matches WorkerPhase::Cycle { cycle } ==> {
        &&& cycle.was_lsn_safe == worker.was_lsn_safe
        &&& cycle.phase !is Finished
    }
}

proof fn lemma_safety_run(replies: Seq<Reply>)
    ensures
        safety_ok(worker_run(Worker::starting(), replies), last_safety(replies)),
        ended_with(replies) matches Some(CycleEnd::Synchronized { resumed }) ==> (resumed
            <==> last_safety(replies.drop_last()) != Some(true)),
    decreases replies.len(),
{
    if replies.len() > 0 {
        lemma_safety_run(replies.drop_last());
    }
}

/// The worker knows that positions are safe exactly if the last cycle that told anything of it
/// ended with the slots synchronized.
pub proof fn safety_is_that_of_the_last_cycle(replies: Seq<Reply>)
    ensures
        worker_run(Worker::starting(), replies).was_lsn_safe <==> last_safety(replies) == Some(
            true,
        ),
{
    lemma_safety_run(replies);
}

/// That synchronization is active is told only when positions become safe: by a cycle that
/// synchronizes the slots after one that could not, or as the first one that told anything.
pub proof fn active_is_told_when_positions_become_safe(replies: Seq<Reply>)
    ensures
        ended_with(replies) matches Some(CycleEnd::Synchronized { resumed }) ==> (resumed
            <==> last_safety(replies.drop_last()) != Some(true)),
{
    lemma_safety_run(replies);
}

// ---------------------------------------------------------------------------
// What the worker asks
// ---------------------------------------------------------------------------

/// A reply to anything but the request changes nothing.
pub proof fn worker_heeds_only_answers(worker: Worker, reply: Reply)
    requires
        !answers(worker.pending(), reply),
        worker.pending() !is Nothing,
    ensures
        worker.next(reply) == worker,
{
    if let WorkerPhase::Cycle { cycle } = worker.phase {
        cycle_heeds_only_answers(cycle, reply);
    }
}

/// The worker stands where its cycle does; where that has ended, it sleeps for as long as the
/// cycle suggests. How the cycle ended is told and is to be logged, but for a skipped cycle after
/// an earlier one.
pub open spec fn is_at_cycle(
    worker: Worker,
    cycle: SyncCycle,
    was_lsn_safe: bool,
    skipped: bool,
) -> bool {
    if cycle.pending() is Nothing {
        &&& cycle.phase matches CyclePhase::Finished { end }
        &&& worker.pending() == (Request::SleepUntilNextCycle {
            ms: cycle.sleep_after(end),
            end: Some(end),
            report: if end is Skipped {
                !skipped
            } else {
                true
            },
        })
        &&& worker.was_lsn_safe == cycle.was_lsn_safe
        &&& end is Skipped ==> worker.skipped
        &&& end !is Skipped ==> worker.skipped == skipped
    } else {
        &&& worker.phase == (WorkerPhase::Cycle { cycle })
        &&& worker.pending() == cycle.pending()
        &&& worker.was_lsn_safe == was_lsn_safe
        &&& worker.skipped == skipped
    }
}

/// Before each cycle the worker acts on interrupts, reads the settings, and asks whether the
/// server is in recovery. Where it is not, the worker sleeps for ten nap times. Otherwise it asks
/// for the WAL receiver and begins a cycle with what it was told, the nap time to sleep, and
/// whether the last cycle found the positions safe.
pub proof fn worker_begins_a_cycle(
    worker: Worker,
    settings: Settings,
    status: StandbyStatus,
)
    requires
        worker.phase is CheckInterrupts,
    ensures
        Worker::starting().phase is CheckInterrupts,
        !Worker::starting().was_lsn_safe,
        !Worker::starting().skipped,
        worker.pending() is CheckInterrupts,
        ({
            let awake = worker.next(Reply::Done);
            let told = awake.next(Reply::Settings(settings));
            let outside = told.next(Reply::InRecovery(false));
            let inside = told.next(Reply::InRecovery(true));
            let begun = inside.next(Reply::StandbyStatus(status));
            &&& awake.pending() is ReadSettings
            &&& told.pending() is CheckRecovery
            &&& outside.pending() == (Request::SleepUntilNextCycle {
                ms: (10 * settings.worker_nap_time) as i64,
                end: None,
                report: false,
            })
            &&& outside.was_lsn_safe == worker.was_lsn_safe
            &&& outside.skipped == worker.skipped
            &&& inside.pending() is ReadStandbyStatus
            &&& is_at_cycle(
                begun,
                SyncCycle::starting(
                    settings,
                    status,
                    settings.worker_nap_time as i64,
                    worker.was_lsn_safe,
                ),
                worker.was_lsn_safe,
                worker.skipped,
            )
        }),
{
}

/// While a cycle runs, the worker hands it the replies.
pub proof fn worker_hands_replies_to_its_cycle(worker: Worker, cycle: SyncCycle, reply: Reply)
    requires
        worker.phase == (WorkerPhase::Cycle { cycle }),
    ensures
        worker.pending() == cycle.pending(),
        is_at_cycle(worker.next(reply), cycle.next(reply), worker.was_lsn_safe, worker.skipped),
{
}

/// After its sleep the worker reads the configuration again where that is asked for, and begins
/// anew. It ends only where the postmaster is gone.
pub proof fn worker_begins_anew_after_its_sleep(worker: Worker)
    requires
        worker.pending() is SleepUntilNextCycle,
        worker.phase !is Cycle,
    ensures
        ({
            let died = worker.next(Reply::Woken { postmaster_died: true });
            let woken = worker.next(Reply::Woken { postmaster_died: false });
            let same = woken.next(Reply::ReloadPending(false));
            let changed = woken.next(Reply::ReloadPending(true));
            let anew = Worker { phase: WorkerPhase::CheckInterrupts, ..worker };
            &&& died.pending() == (Request::Exit { code: 1, timed_out: false })
            &&& woken.pending() is CheckReload
            &&& same == anew
            &&& changed.pending() is ReloadConfig
            &&& changed.next(Reply::Done) == anew
        }),
{
}

} // verus!
