//! Synchronization of slots, over every series of replies.

use crate::guc::name_views;
use crate::pg_compat::{INVALID_OID, INVALID_XLOG_REC_PTR};
use crate::remote::RemoteSlot;
use crate::server::{CycleEnd, LocalSlot, Reply, Request, SlotOutcome, SlotPosition};
use crate::slot_sync::{
    first_extra, has_reached, has_reached_iff_not_behind, is_behind, is_extra, lemma_first_extra,
    slot_exists, CatchupPhase, CatchupWait, CyclePhase, SlotPhase, SlotSync,
    SyncCycle,
};
use crate::WORKER_WAIT_FEEDBACK;
use vstd::prelude::*;

verus! {

// ---------------------------------------------------------------------------
// Runs
// ---------------------------------------------------------------------------

/// A wait after a series of replies.
pub open spec fn catchup_run(wait: CatchupWait, replies: Seq<Reply>) -> CatchupWait
    decreases replies.len(),
{
    if replies.len() == 0 {
        wait
    } else {
        catchup_run(wait, replies.drop_last()).next(replies.last())
    }
}

/// The synchronization of a slot after a series of replies.
pub open spec fn slot_run(sync: SlotSync, replies: Seq<Reply>) -> SlotSync
    decreases replies.len(),
{
    if replies.len() == 0 {
        sync
    } else {
        slot_run(sync, replies.drop_last()).next(replies.last())
    }
}

/// A cycle after a series of replies.
pub open spec fn cycle_run(cycle: SyncCycle, replies: Seq<Reply>) -> SyncCycle
    decreases replies.len(),
{
    if replies.len() == 0 {
        cycle
    } else {
        cycle_run(cycle, replies.drop_last()).next(replies.last())
    }
}

/// Everything the standby says of its own log stays within `bound`.
pub open spec fn log_within(replies: Seq<Reply>, bound: u64) -> bool {
    forall|i: int| 0 <= i < replies.len() ==> reply_within(#[trigger] replies[i], bound)
}

/// What a reply says of the standby's own log stays within `bound`.
pub open spec fn reply_within(reply: Reply, bound: u64) -> bool {
    &&& (reply matches Reply::ReceivedLsn(lsn) ==> lsn <= bound)
    &&& (reply matches Reply::LatestWalEnd(lsn) ==> lsn <= bound)
}

proof fn lemma_log_within(replies: Seq<Reply>, bound: u64)
    requires
        log_within(replies, bound),
        replies.len() > 0,
    ensures
        log_within(replies.drop_last(), bound),
        reply_within(replies.last(), bound),
{
    assert forall|i: int| 0 <= i < replies.drop_last().len() implies reply_within(
        #[trigger] replies.drop_last()[i],
        bound,
    ) by {
        assert(replies.drop_last()[i] == replies[i]);
    }
    assert(reply_within(replies[replies.len() - 1], bound));
}

/// The positions of a slot stay within `bound`.
pub open spec fn slot_within(slot: RemoteSlot, bound: u64) -> bool {
    slot.restart_lsn <= bound && slot.confirmed_lsn <= bound
}

// ---------------------------------------------------------------------------
// Waiting for the primary
// ---------------------------------------------------------------------------

/// The wait has found the primary's slot caught up.
pub open spec fn is_caught_up(wait: CatchupWait) -> bool {
    match wait.phase {
        CatchupPhase::Disconnect { result } => result is CaughtUp,
        CatchupPhase::Finished { result } => result is CaughtUp,
        _ => false,
    }
}

spec fn catchup_ok(wait: CatchupWait, slot: RemoteSlot, position: SlotPosition) -> bool {
    &&& wait.position == position
    &&& if is_caught_up(wait) {
        &&& has_reached(wait.slot, position)
        &&& wait.slot == RemoteSlot {
            restart_lsn: wait.slot.restart_lsn,
            confirmed_lsn: wait.slot.confirmed_lsn,
            catalog_xmin: wait.slot.catalog_xmin,
            ..slot
        }
    } else {
        wait.slot == slot
    }
}

proof fn lemma_catchup_step(
    wait: CatchupWait,
    reply: Reply,
    slot: RemoteSlot,
    position: SlotPosition,
)
    requires
        catchup_ok(wait, slot, position),
    ensures
        catchup_ok(wait.next(reply), slot, position),
{
}

/// A wait that ends with the slot caught up hands on a position that the local slot can move to
/// without going backward. It changes nothing of the slot but its position, and without success
/// not even that.
pub proof fn catchup_reaches_the_position(
    slot: RemoteSlot,
    position: SlotPosition,
    replies: Seq<Reply>,
)
    ensures
        ({
            let wait = catchup_run(CatchupWait::starting(slot, position), replies);
            &&& wait.position == position
            &&& is_caught_up(wait) ==> !is_behind(wait.slot, position) && wait.slot == RemoteSlot {
                restart_lsn: wait.slot.restart_lsn,
                confirmed_lsn: wait.slot.confirmed_lsn,
                catalog_xmin: wait.slot.catalog_xmin,
                ..slot
            }
            &&& !is_caught_up(wait) ==> wait.slot == slot
        }),
{
    lemma_catchup_run(slot, position, replies);
    let wait = catchup_run(CatchupWait::starting(slot, position), replies);
    has_reached_iff_not_behind(wait.slot, position);
}

proof fn lemma_catchup_run(slot: RemoteSlot, position: SlotPosition, replies: Seq<Reply>)
    ensures
        catchup_ok(catchup_run(CatchupWait::starting(slot, position), replies), slot, position),
    decreases replies.len(),
{
    if replies.len() > 0 {
        lemma_catchup_run(slot, position, replies.drop_last());
        lemma_catchup_step(
            catchup_run(CatchupWait::starting(slot, position), replies.drop_last()),
            replies.last(),
            slot,
            position,
        );
    }
}

/// A wait leaves the slot within what this standby has of the log.
pub proof fn catchup_stays_within_received_log(
    slot: RemoteSlot,
    position: SlotPosition,
    replies: Seq<Reply>,
    bound: u64,
)
    requires
        slot_within(slot, bound),
        log_within(replies, bound),
    ensures
        slot_within(
            catchup_run(CatchupWait::starting(slot, position), replies).slot,
            bound,
        ),
    decreases replies.len(),
{
    if replies.len() > 0 {
        lemma_log_within(replies, bound);
        catchup_stays_within_received_log(slot, position, replies.drop_last(), bound);
    }
}

// ---------------------------------------------------------------------------
// A single slot
// ---------------------------------------------------------------------------

/// What is done to a slot and around it.
pub enum SlotStep {
    Begin,
    Search,
    Acquire,
    Create,
    Advance,
    Save,
    Persist,
    Release,
    Commit,
}

/// What was done when a reply came: the request that it answers.
pub open spec fn step_done(sync: SlotSync, reply: Reply) -> Seq<SlotStep> {
    match (sync.phase, reply) {
        (SlotPhase::Begin, Reply::Done) => seq![SlotStep::Begin],
        (SlotPhase::Search, Reply::LocalSlots(_)) => seq![SlotStep::Search],
        (SlotPhase::Acquire, Reply::Position(_)) => seq![SlotStep::Acquire],
        (SlotPhase::Create, Reply::Position(_)) => seq![SlotStep::Create],
        (SlotPhase::Advance { .. }, Reply::Done) => seq![SlotStep::Advance],
        (SlotPhase::Store { created }, Reply::Done) => if created {
            seq![SlotStep::Persist]
        } else {
            seq![SlotStep::Save]
        },
        (SlotPhase::Release { .. }, Reply::Done) => seq![SlotStep::Release],
        (SlotPhase::Commit { .. }, Reply::Done) => seq![SlotStep::Commit],
        _ => Seq::empty(),
    }
}

/// All that was done in the course of a series of replies.
pub open spec fn steps_done(sync: SlotSync, replies: Seq<Reply>) -> Seq<SlotStep>
    decreases replies.len(),
{
    if replies.len() == 0 {
        Seq::empty()
    } else {
        steps_done(sync, replies.drop_last()) + step_done(
            slot_run(sync, replies.drop_last()),
            replies.last(),
        )
    }
}

/// All that is done to a slot by the time it is released, by how its synchronization ends.
pub open spec fn steps_before_release(outcome: SlotOutcome) -> Seq<SlotStep> {
    match outcome {
        SlotOutcome::NotInRecovery => Seq::empty(),
        SlotOutcome::WouldMoveBackward => seq![SlotStep::Begin, SlotStep::Search, SlotStep::Acquire],
        SlotOutcome::NotCaughtUp => seq![SlotStep::Begin, SlotStep::Search, SlotStep::Create],
        SlotOutcome::Updated => seq![
            SlotStep::Begin,
            SlotStep::Search,
            SlotStep::Acquire,
            SlotStep::Advance,
            SlotStep::Save,
        ],
        SlotOutcome::Created => seq![
            SlotStep::Begin,
            SlotStep::Search,
            SlotStep::Create,
            SlotStep::Advance,
            SlotStep::Persist,
        ],
    }
}

/// All that is done, by how the synchronization ends.
pub open spec fn steps_of_outcome(outcome: SlotOutcome) -> Seq<SlotStep> {
    if outcome is NotInRecovery {
        Seq::empty()
    } else {
        steps_before_release(outcome) + seq![SlotStep::Release, SlotStep::Commit]
    }
}

spec fn steps_at(phase: SlotPhase) -> Seq<SlotStep> {
    match phase {
        SlotPhase::CheckRecovery => Seq::empty(),
        SlotPhase::Begin => Seq::empty(),
        SlotPhase::Search => seq![SlotStep::Begin],
        SlotPhase::Acquire => seq![SlotStep::Begin, SlotStep::Search],
        SlotPhase::Create => seq![SlotStep::Begin, SlotStep::Search],
        SlotPhase::Catchup { .. } => seq![SlotStep::Begin, SlotStep::Search, SlotStep::Create],
        SlotPhase::Advance { created, .. } => if created {
            seq![SlotStep::Begin, SlotStep::Search, SlotStep::Create]
        } else {
            seq![SlotStep::Begin, SlotStep::Search, SlotStep::Acquire]
        },
        SlotPhase::Store { created } => if created {
            seq![SlotStep::Begin, SlotStep::Search, SlotStep::Create, SlotStep::Advance]
        } else {
            seq![SlotStep::Begin, SlotStep::Search, SlotStep::Acquire, SlotStep::Advance]
        },
        SlotPhase::Release { outcome } => steps_before_release(outcome),
        SlotPhase::Commit { outcome } => steps_before_release(outcome) + seq![SlotStep::Release],
        SlotPhase::Finished { outcome } => steps_of_outcome(outcome),
    }
}

spec fn slot_phase_ok(phase: SlotPhase) -> bool {
    match phase {
        SlotPhase::Release { outcome } => outcome !is NotInRecovery,
        SlotPhase::Commit { outcome } => outcome !is NotInRecovery,
        _ => true,
    }
}

proof fn lemma_steps_step(sync: SlotSync, reply: Reply)
    requires
        slot_phase_ok(sync.phase),
    ensures
        slot_phase_ok(sync.next(reply).phase),
        steps_at(sync.next(reply).phase) == steps_at(sync.phase) + step_done(sync, reply),
{
    assert(steps_at(sync.next(reply).phase) =~= steps_at(sync.phase) + step_done(sync, reply));
}

proof fn lemma_steps_run(slot: RemoteSlot, replies: Seq<Reply>)
    ensures
        slot_phase_ok(slot_run(SlotSync::starting(slot), replies).phase),
        steps_done(SlotSync::starting(slot), replies) == steps_at(
            slot_run(SlotSync::starting(slot), replies).phase,
        ),
    decreases replies.len(),
{
    if replies.len() > 0 {
        lemma_steps_run(slot, replies.drop_last());
        lemma_steps_step(slot_run(SlotSync::starting(slot), replies.drop_last()), replies.last());
    }
}

/// The synchronization of a slot does exactly what its outcome stands for, in that order: a
/// transaction that is begun is committed once, a slot that is acquired or created is released
/// before that, a slot is moved at most once, only an existing slot is saved and only a new one
/// made persistent, and outside recovery nothing is done at all.
pub proof fn slot_steps_follow_outcome(slot: RemoteSlot, replies: Seq<Reply>, outcome: SlotOutcome)
    requires
        slot_run(SlotSync::starting(slot), replies).phase == (SlotPhase::Finished { outcome }),
    ensures
        steps_done(SlotSync::starting(slot), replies) == steps_of_outcome(outcome),
{
    lemma_steps_run(slot, replies);
}

/// The position of the local slot as it was told in the course of a series of replies.
pub open spec fn position_told(sync: SlotSync, replies: Seq<Reply>) -> Option<SlotPosition>
    decreases replies.len(),
{
    if replies.len() == 0 {
        None
    } else {
        match (slot_run(sync, replies.drop_last()).phase, replies.last()) {
            (SlotPhase::Acquire, Reply::Position(position)) => Some(position),
            (SlotPhase::Create, Reply::Position(position)) => Some(position),
            _ => position_told(sync, replies.drop_last()),
        }
    }
}

spec fn slot_ok(sync: SlotSync, slot: RemoteSlot, told: Option<SlotPosition>) -> bool {
    &&& match sync.phase {
        SlotPhase::Catchup { wait } => told is Some && sync.slot == slot && catchup_ok(
            wait,
            slot,
            told->0,
        ),
        SlotPhase::Advance { position, .. } => told == Some(position) && !is_behind(
            sync.slot,
            position,
        ),
        SlotPhase::CheckRecovery | SlotPhase::Begin | SlotPhase::Search | SlotPhase::Acquire
        | SlotPhase::Create => sync.slot == slot,
        _ => true,
    }
    &&& sync.slot == RemoteSlot {
        restart_lsn: sync.slot.restart_lsn,
        confirmed_lsn: sync.slot.confirmed_lsn,
        catalog_xmin: sync.slot.catalog_xmin,
        ..slot
    }
}

proof fn lemma_slot_run(slot: RemoteSlot, replies: Seq<Reply>)
    ensures
        slot_ok(
            slot_run(SlotSync::starting(slot), replies),
            slot,
            position_told(SlotSync::starting(slot), replies),
        ),
    decreases replies.len(),
{
    if replies.len() > 0 {
        lemma_slot_run(slot, replies.drop_last());
        let sync = slot_run(SlotSync::starting(slot), replies.drop_last());
        let told = position_told(SlotSync::starting(slot), replies.drop_last());
        if let SlotPhase::Catchup { wait } = sync.phase {
            lemma_catchup_step(wait, replies.last(), slot, told->0);
            has_reached_iff_not_behind(wait.next(replies.last()).slot, told->0);
        }
    }
}

/// A slot is never moved backward: where it is to be moved, the local slot told its position,
/// and neither the log nor the catalog rows that it needs lie before that. And nothing of the
/// slot is changed on the way but its position.
pub proof fn slot_never_moves_backward(slot: RemoteSlot, replies: Seq<Reply>)
    ensures
        ({
            let sync = slot_run(SlotSync::starting(slot), replies);
            &&& sync.pending() matches Request::AdvanceSlot { slot: target } ==> {
                &&& position_told(SlotSync::starting(slot), replies) matches Some(position)
                    && !is_behind(*target, position)
                &&& target.name == slot.name && target.plugin == slot.plugin && target.database
                    == slot.database && target.two_phase == slot.two_phase
            }
        }),
{
    lemma_slot_run(slot, replies);
}

/// Whether the local slot was found when it was searched for in the course of a series of
/// replies.
pub open spec fn slot_found(sync: SlotSync, replies: Seq<Reply>) -> Option<bool>
    decreases replies.len(),
{
    if replies.len() == 0 {
        None
    } else {
        match (slot_run(sync, replies.drop_last()).phase, replies.last()) {
            (SlotPhase::Search, Reply::LocalSlots(slots)) => Some(
                slot_exists(slots@, sync.slot.name@),
            ),
            _ => slot_found(sync, replies.drop_last()),
        }
    }
}

/// The outcome for what was found of the local slot and for the position that it told.
pub open spec fn outcome_fits(
    outcome: SlotOutcome,
    slot: RemoteSlot,
    found: Option<bool>,
    told: Option<SlotPosition>,
) -> bool {
    match outcome {
        SlotOutcome::NotInRecovery => found is None,
        SlotOutcome::WouldMoveBackward => found == Some(true) && told is Some && is_behind(
            slot,
            told->0,
        ),
        SlotOutcome::Updated => found == Some(true) && told is Some && !is_behind(slot, told->0),
        SlotOutcome::NotCaughtUp => found == Some(false) && told is Some && is_behind(
            slot,
            told->0,
        ),
        SlotOutcome::Created => found == Some(false) && told is Some,
    }
}

spec fn outcome_ok(
    phase: SlotPhase,
    slot: RemoteSlot,
    found: Option<bool>,
    told: Option<SlotPosition>,
) -> bool {
    match phase {
        SlotPhase::CheckRecovery | SlotPhase::Begin | SlotPhase::Search => found is None,
        SlotPhase::Acquire => found == Some(true),
        SlotPhase::Create => found == Some(false),
        SlotPhase::Catchup { .. } => outcome_fits(SlotOutcome::NotCaughtUp, slot, found, told),
        SlotPhase::Advance { created, .. } | SlotPhase::Store { created } => outcome_fits(
            if created {
                SlotOutcome::Created
            } else {
                SlotOutcome::Updated
            },
            slot,
            found,
            told,
        ),
        SlotPhase::Release { outcome } | SlotPhase::Commit { outcome } | SlotPhase::Finished {
            outcome,
        } => outcome_fits(outcome, slot, found, told),
    }
}

proof fn lemma_outcome_run(slot: RemoteSlot, replies: Seq<Reply>)
    ensures
        outcome_ok(
            slot_run(SlotSync::starting(slot), replies).phase,
            slot,
            slot_found(SlotSync::starting(slot), replies),
            position_told(SlotSync::starting(slot), replies),
        ),
    decreases replies.len(),
{
    if replies.len() > 0 {
        lemma_outcome_run(slot, replies.drop_last());
        lemma_slot_run(slot, replies.drop_last());
    }
}

/// How the synchronization of a slot ends depends on what was found: a slot that exists is
/// moved forward unless it is ahead of the primary's already, and one that does not exist is
/// made, unless the primary's had to catch up and did not.
pub proof fn outcome_depends_on_what_was_found(
    slot: RemoteSlot,
    replies: Seq<Reply>,
    outcome: SlotOutcome,
)
    requires
        slot_run(SlotSync::starting(slot), replies).phase == (SlotPhase::Finished { outcome }),
    ensures
        outcome_fits(
            outcome,
            slot,
            slot_found(SlotSync::starting(slot), replies),
            position_told(SlotSync::starting(slot), replies),
        ),
{
    lemma_outcome_run(slot, replies);
}

/// A slot that starts within what this standby has of the log is not moved past that.
pub proof fn slot_stays_within_received_log(slot: RemoteSlot, replies: Seq<Reply>, bound: u64)
    requires
        slot_within(slot, bound),
        log_within(replies, bound),
    ensures
        ({
            let sync = slot_run(SlotSync::starting(slot), replies);
            sync.pending() matches Request::AdvanceSlot { slot: target } ==> slot_within(
                *target,
                bound,
            )
        }),
{
    lemma_slot_within_run(SlotSync::starting(slot), replies, bound);
}

spec fn sync_within(sync: SlotSync, bound: u64) -> bool {
    &&& slot_within(sync.slot, bound)
    &&& (sync.phase matches SlotPhase::Catchup { wait } ==> slot_within(wait.slot, bound))
}

proof fn lemma_slot_within_step(sync: SlotSync, reply: Reply, bound: u64)
    requires
        sync_within(sync, bound),
        reply_within(reply, bound),
    ensures
        sync_within(sync.next(reply), bound),
{
}

proof fn lemma_slot_within_run(sync: SlotSync, replies: Seq<Reply>, bound: u64)
    requires
        sync_within(sync, bound),
        log_within(replies, bound),
    ensures
        sync_within(slot_run(sync, replies), bound),
    decreases replies.len(),
{
    if replies.len() > 0 {
        lemma_log_within(replies, bound);
        lemma_slot_within_run(sync, replies.drop_last(), bound);
        lemma_slot_within_step(slot_run(sync, replies.drop_last()), replies.last(), bound);
    }
}

// ---------------------------------------------------------------------------
// A cycle
// ---------------------------------------------------------------------------

/// A cycle that has just been started.
pub open spec fn is_new(cycle: SyncCycle) -> bool {
    cycle.phase is Connect || cycle.phase is Finished
}

spec fn cycle_within(cycle: SyncCycle, bound: u64) -> bool {
    match cycle.phase {
        CyclePhase::ReadReceived { oldest, .. } => oldest <= bound,
        CyclePhase::Synchronize { oldest, sync, .. } => oldest <= bound && sync_within(
            sync,
            bound,
        ),
        _ => true,
    }
}

proof fn lemma_cycle_within_step(cycle: SyncCycle, reply: Reply, bound: u64)
    requires
        cycle_within(cycle, bound),
        reply_within(reply, bound),
    ensures
        cycle_within(cycle.next(reply), bound),
{
    if let CyclePhase::Synchronize { sync, .. } = cycle.phase {
        lemma_slot_within_step(sync, reply, bound);
    }
}

/// No slot is ever moved past what this standby has of the log: past a bound on all that the
/// standby says it has received.
pub proof fn slots_stay_within_received_log(cycle: SyncCycle, replies: Seq<Reply>, bound: u64)
    requires
        is_new(cycle),
        log_within(replies, bound),
    ensures
        cycle_run(cycle, replies).pending() matches Request::AdvanceSlot { slot } ==> slot_within(
            *slot,
            bound,
        ),
{
    lemma_cycle_within_run(cycle, replies, bound);
}

proof fn lemma_cycle_within_run(cycle: SyncCycle, replies: Seq<Reply>, bound: u64)
    requires
        is_new(cycle),
        log_within(replies, bound),
    ensures
        cycle_within(cycle_run(cycle, replies), bound),
    decreases replies.len(),
{
    if replies.len() > 0 {
        lemma_log_within(replies, bound);
        lemma_cycle_within_run(cycle, replies.drop_last(), bound);
        lemma_cycle_within_step(cycle_run(cycle, replies.drop_last()), replies.last(), bound);
    }
}

/// The synchronization of a slot within a cycle is the run of the latest replies.
pub open spec fn is_slot_run(sync: SlotSync, replies: Seq<Reply>, k: int, slot: RemoteSlot) -> bool {
    0 <= k <= replies.len() && sync == slot_run(SlotSync::starting(slot), replies.skip(k))
}

/// What a cycle does to one slot is the synchronization of that slot, from its start, by the
/// latest replies: so all that holds of it holds within the cycle.
pub proof fn cycle_runs_slot_synchronization(cycle: SyncCycle, replies: Seq<Reply>)
    requires
        is_new(cycle),
    ensures
        cycle_run(cycle, replies).phase matches CyclePhase::Synchronize { sync, .. } ==> exists|
            k: int,
            slot: RemoteSlot,
        | #[trigger]
            is_slot_run(sync, replies, k, slot),
    decreases replies.len(),
{
    if replies.len() > 0 {
        let head = replies.drop_last();
        cycle_runs_slot_synchronization(cycle, head);
        let before = cycle_run(cycle, head);
        let after = cycle_run(cycle, replies);
        if let CyclePhase::Synchronize { sync, .. } = after.phase {
            match before.phase {
                CyclePhase::Synchronize { sync: earlier, .. } => {
                    let (k, slot) = choose|k: int, slot: RemoteSlot| #[trigger]
                        is_slot_run(earlier, head, k, slot);
                    assert(replies.skip(k).drop_last() =~= head.skip(k));
                    assert(replies.skip(k).last() == replies.last());
                    assert(is_slot_run(sync, replies, k, slot));
                },
                _ => {
                    assert(replies.skip(replies.len() as int) =~= Seq::<Reply>::empty());
                    assert(is_slot_run(sync, replies, replies.len() as int, sync.slot));
                },
            }
        }
    }
}

/// Within a cycle, too, a slot is never moved backward.
pub proof fn cycle_never_moves_slot_backward(cycle: SyncCycle, replies: Seq<Reply>)
    requires
        is_new(cycle),
    ensures
        cycle_run(cycle, replies).pending() matches Request::AdvanceSlot { slot: target } ==> exists|
            k: int,
            slot: RemoteSlot,
        | #[trigger]
            is_slot_run(cycle_run(cycle, replies).phase->sync, replies, k, slot) && (position_told(
                SlotSync::starting(slot),
                replies.skip(k),
            ) matches Some(position) && !is_behind(*target, position)),
{
    let after = cycle_run(cycle, replies);
    if let CyclePhase::Synchronize { sync, .. } = after.phase {
        cycle_runs_slot_synchronization(cycle, replies);
        let (k, slot) = choose|k: int, slot: RemoteSlot| #[trigger]
            is_slot_run(sync, replies, k, slot);
        slot_never_moves_backward(slot, replies.skip(k));
    }
}

/// The answer to the query for the primary's slots, if there is one after a reply.
pub open spec fn fetched_after(
    cycle: SyncCycle,
    reply: Reply,
    fetched: Option<Seq<RemoteSlot>>,
) -> Option<Seq<RemoteSlot>> {
    match (cycle.phase, reply) {
        (CyclePhase::FetchSlots { .. }, Reply::RemoteSlots(answer)) => match answer {
            Some(slots) => Some(slots@),
            None => None,
        },
        _ => fetched,
    }
}

/// The slots that the primary was found to have in the course of a series of replies: nothing
/// unless it answered the query for them.
pub open spec fn slots_fetched(cycle: SyncCycle, replies: Seq<Reply>) -> Option<Seq<RemoteSlot>>
    decreases replies.len(),
{
    if replies.len() == 0 {
        None
    } else {
        let head = replies.drop_last();
        fetched_after(cycle_run(cycle, head), replies.last(), slots_fetched(cycle, head))
    }
}

/// The answer to the query for the names of all slots of the primary, if there is one after a
/// reply.
pub open spec fn names_after(
    cycle: SyncCycle,
    reply: Reply,
    names: Option<Seq<Seq<char>>>,
) -> Option<Seq<Seq<char>>> {
    match (cycle.phase, reply) {
        (CyclePhase::FetchNames { .. }, Reply::SlotNames(answer)) => match answer {
            Some(answer) => Some(name_views(answer@)),
            None => None,
        },
        _ => names,
    }
}

/// The names of all logical slots that the primary was found to have, whatever the filters, in
/// the course of a series of replies: nothing unless it answered the query for them.
pub open spec fn names_fetched(cycle: SyncCycle, replies: Seq<Reply>) -> Option<Seq<Seq<char>>>
    decreases replies.len(),
{
    if replies.len() == 0 {
        None
    } else {
        let head = replies.drop_last();
        names_after(cycle_run(cycle, head), replies.last(), names_fetched(cycle, head))
    }
}

/// The slots whose synchronization is begun after a reply.
pub open spec fn begun_after(cycle: SyncCycle, reply: Reply, begun: Seq<RemoteSlot>) -> Seq<
    RemoteSlot,
> {
    match (cycle.phase, cycle.next(reply).phase) {
        (CyclePhase::ReadReceived { .. }, CyclePhase::Synchronize { sync, .. }) => begun.push(
            sync.slot,
        ),
        _ => begun,
    }
}

/// The slots whose synchronization was begun in the course of a series of replies, as they were
/// then.
pub open spec fn slots_begun(cycle: SyncCycle, replies: Seq<Reply>) -> Seq<RemoteSlot>
    decreases replies.len(),
{
    if replies.len() == 0 {
        Seq::empty()
    } else {
        let head = replies.drop_last();
        begun_after(cycle_run(cycle, head), replies.last(), slots_begun(cycle, head))
    }
}

/// How the slots that were begun relate to those that were fetched.
pub open spec fn begun_of_fetched(begun: Seq<RemoteSlot>, fetched: Seq<RemoteSlot>) -> bool {
    &&& begun.len() <= fetched.len()
    &&& forall|i: int|
        0 <= i < begun.len() ==> {
            &&& (#[trigger] begun[i]).name == fetched[i].name
            &&& begun[i].plugin == fetched[i].plugin
            &&& begun[i].database == fetched[i].database
            &&& begun[i].two_phase == fetched[i].two_phase
            &&& begun[i].catalog_xmin == fetched[i].catalog_xmin
            &&& begun[i].restart_lsn <= fetched[i].restart_lsn
            &&& begun[i].confirmed_lsn <= fetched[i].confirmed_lsn
        }
}

spec fn cycle_slots_ok(
    cycle: SyncCycle,
    fetched: Option<Seq<RemoteSlot>>,
    names: Option<Seq<Seq<char>>>,
    begun: Seq<RemoteSlot>,
) -> bool {
    &&& match fetched {
        Some(fetched) => begun_of_fetched(begun, fetched),
        None => begun.len() == 0,
    }
    &&& match cycle.phase {
        CyclePhase::Connect { .. } | CyclePhase::FetchSlots { .. } => begun.len() == 0,
        CyclePhase::FetchOwnLsn { slots, .. } => fetched == Some(slots@) && begun.len() == 0,
        CyclePhase::FetchNames { slots, .. } => fetched == Some(slots@) && begun.len() == 0
            && cycle.settings.drop_extra_slots,
        CyclePhase::Disconnect { slots, answer, .. } => {
            &&& fetched == Some(slots@)
            &&& begun.len() == 0
            &&& answer matches Some(answer) ==> cycle.settings.drop_extra_slots && names == Some(
                name_views(answer@),
            )
        },
        CyclePhase::Abandon => fetched is None,
        CyclePhase::ListLocal { slots, names: answer, .. } => {
            &&& fetched == Some(slots@)
            &&& begun.len() == 0
            &&& cycle.settings.drop_extra_slots
            &&& names == Some(name_views(answer@))
        },
        CyclePhase::DropLocal { slots, names: answer, name, .. } => {
            &&& fetched == Some(slots@)
            &&& begun.len() == 0
            &&& cycle.settings.drop_extra_slots
            &&& names == Some(name_views(answer@))
            &&& !name_views(answer@).contains(name@)
        },
        CyclePhase::ReadWalEnd { slots, .. } => fetched == Some(slots@) && begun.len() == 0,
        CyclePhase::ReadReceived { slots, index, .. } => fetched == Some(slots@) && begun.len()
            == index && index < slots@.len(),
        CyclePhase::Synchronize { slots, index, .. } => fetched == Some(slots@) && begun.len()
            == index + 1 && index < slots@.len(),
        CyclePhase::Finished { end } => {
            &&& end is Synchronized ==> fetched is Some && begun.len() == fetched->0.len()
            &&& end is FetchFailed ==> fetched is None
        },
    }
}

proof fn lemma_cycle_slots_step(
    cycle: SyncCycle,
    reply: Reply,
    fetched: Option<Seq<RemoteSlot>>,
    names: Option<Seq<Seq<char>>>,
    begun: Seq<RemoteSlot>,
)
    requires
        cycle_slots_ok(cycle, fetched, names, begun),
    ensures
        cycle_slots_ok(
            cycle.next(reply),
            fetched_after(cycle, reply, fetched),
            names_after(cycle, reply, names),
            begun_after(cycle, reply, begun),
        ),
        cycle.next(reply).settings == cycle.settings,
{
    match cycle.phase {
        CyclePhase::ListLocal { names: answer, .. } => {
            if let Reply::LocalSlots(local) = reply {
                lemma_first_extra(local@, name_views(answer@));
            }
        },
        CyclePhase::Synchronize { slots, .. } => {
            assert(slots.len() == slots@.len());
        },
        _ => {},
    }
}

proof fn lemma_cycle_slots_run(cycle: SyncCycle, replies: Seq<Reply>)
    requires
        cycle.phase is Connect,
    ensures
        cycle_slots_ok(
            cycle_run(cycle, replies),
            slots_fetched(cycle, replies),
            names_fetched(cycle, replies),
            slots_begun(cycle, replies),
        ),
        cycle_run(cycle, replies).settings == cycle.settings,
    decreases replies.len(),
{
    if replies.len() > 0 {
        let head = replies.drop_last();
        lemma_cycle_slots_run(cycle, head);
        lemma_cycle_slots_step(
            cycle_run(cycle, head),
            replies.last(),
            slots_fetched(cycle, head),
            names_fetched(cycle, head),
            slots_begun(cycle, head),
        );
    }
}

/// A cycle that ends with the slots synchronized has gone through all slots that the primary
/// was found to have, once each and in their order, with nothing of them changed but positions
/// moved back. No slot is begun that the primary was not found to have.
pub proof fn cycle_goes_through_all_slots(cycle: SyncCycle, replies: Seq<Reply>)
    requires
        cycle.phase is Connect,
    ensures
        match slots_fetched(cycle, replies) {
            Some(fetched) => begun_of_fetched(slots_begun(cycle, replies), fetched),
            None => slots_begun(cycle, replies).len() == 0,
        },
        cycle_run(cycle, replies).phase matches CyclePhase::Finished { end } ==> (
        end is Synchronized ==> (slots_fetched(cycle, replies) matches Some(fetched)
            && slots_begun(cycle, replies).len() == fetched.len())),
{
    lemma_cycle_slots_run(cycle, replies);
}

/// A local slot is dropped only where the configuration says so, and only if the primary was
/// found not to have it: it answered the query for its slots and the query for the names of all
/// of them, whatever the filters, and the name is not among those.
pub proof fn only_extra_slots_are_dropped(cycle: SyncCycle, replies: Seq<Reply>)
    requires
        cycle.phase is Connect,
    ensures
        cycle_run(cycle, replies).pending() matches Request::DropLocalSlot { name } ==> {
            &&& cycle.settings.drop_extra_slots
            &&& slots_fetched(cycle, replies) is Some
            &&& names_fetched(cycle, replies) matches Some(names) && !names.contains(name@)
        },
{
    lemma_cycle_slots_run(cycle, replies);
}

/// The primary did not answer the query for its slots in the course of a series of replies.
pub open spec fn query_failed(cycle: SyncCycle, replies: Seq<Reply>) -> bool
    decreases replies.len(),
{
    replies.len() > 0 && {
        let head = replies.drop_last();
        ||| query_failed(cycle, head)
        ||| cycle_run(cycle, head).phase is FetchSlots && replies.last() == Reply::RemoteSlots(None)
    }
}

/// Where the primary does not answer the query for its slots, the cycle closes the connection
/// and ends, with the usual time to sleep. No local slot is looked at, dropped or moved.
pub proof fn failed_query_ends_the_cycle(cycle: SyncCycle, replies: Seq<Reply>)
    requires
        cycle.phase is Connect,
        query_failed(cycle, replies),
    ensures
        ({
            let after = cycle_run(cycle, replies);
            &&& after.pending() == Request::Disconnect || after.pending() == Request::Nothing
            &&& after.phase is Abandon || after.phase == (CyclePhase::Finished {
                end: CycleEnd::FetchFailed,
            })
            &&& after.sleep_after(CycleEnd::FetchFailed) == cycle.sleep_time
        }),
    decreases replies.len(),
{
    let head = replies.drop_last();
    lemma_cycle_end_run(cycle, replies);
    if query_failed(cycle, head) {
        failed_query_ends_the_cycle(cycle, head);
    }
}

/// A local slot is dropped only if it was just listed as a logical slot that no process uses.
pub proof fn dropped_slot_is_idle_and_logical(cycle: SyncCycle, local: Vec<LocalSlot>)
    requires
        cycle.phase is ListLocal,
    ensures
        cycle.next(Reply::LocalSlots(local)).pending() matches Request::DropLocalSlot { name }
            ==> exists|i: int|
            0 <= i < local@.len() && (#[trigger] local@[i]).name == *name && local@[i].in_use
                && local@[i].active_pid == 0 && local@[i].database != INVALID_OID,
{
    if let CyclePhase::ListLocal { names, .. } = cycle.phase {
        lemma_first_extra(local@, name_views(names@));
        let extra = first_extra(local@, name_views(names@)) as int;
        if extra < local@.len() {
            assert(is_extra(local@[extra], name_views(names@)));
        }
    }
}

spec fn cycle_end_ok(cycle: SyncCycle, started: SyncCycle) -> bool {
    &&& cycle.sleep_time == started.sleep_time
    &&& match cycle.phase {
        CyclePhase::Finished { end } => match end {
            CycleEnd::Synchronized { resumed } => cycle.was_lsn_safe && resumed
                == !started.was_lsn_safe,
            CycleEnd::FeedbackNotSent | CycleEnd::AheadOfStandby { .. } => !cycle.was_lsn_safe,
            _ => cycle.was_lsn_safe == started.was_lsn_safe,
        },
        _ => cycle.was_lsn_safe == started.was_lsn_safe,
    }
}

/// A cycle knows at its end whether positions are safe: they are if the slots were
/// synchronized, they are not if the standby has not got that far, and otherwise nothing new is
/// known. It is told that synchronization is active exactly when it was not before.
pub proof fn cycle_tells_whether_positions_are_safe(cycle: SyncCycle, replies: Seq<Reply>)
    requires
        cycle.phase is Connect,
    ensures
        ({
            let after = cycle_run(cycle, replies);
            &&& after.phase matches CyclePhase::Finished { end } ==> match end {
                CycleEnd::Synchronized { resumed } => after.was_lsn_safe && resumed
                    == !cycle.was_lsn_safe,
                CycleEnd::FeedbackNotSent | CycleEnd::AheadOfStandby { .. } => !after.was_lsn_safe,
                _ => after.was_lsn_safe == cycle.was_lsn_safe,
            }
        }),
{
    lemma_cycle_end_run(cycle, replies);
}

proof fn lemma_cycle_end_run(cycle: SyncCycle, replies: Seq<Reply>)
    requires
        cycle.phase is Connect,
    ensures
        cycle_end_ok(cycle_run(cycle, replies), cycle),
    decreases replies.len(),
{
    if replies.len() > 0 {
        lemma_cycle_end_run(cycle, replies.drop_last());
    }
}

/// The suggested sleep time is never longer than the usual one, and no longer than the time for
/// feedback where positions were found not to be safe.
pub proof fn suggested_sleep_is_bounded(cycle: SyncCycle, end: CycleEnd)
    ensures
        cycle.sleep_after(end) <= cycle.sleep_time,
        end is FeedbackNotSent || end is AheadOfStandby ==> cycle.sleep_after(end)
            <= WORKER_WAIT_FEEDBACK,
{
}

/// Slots are touched only after the primary told where this standby's own slot stands, and
/// this standby that it has the log as far as the oldest slot needs.
pub proof fn slots_are_touched_only_where_safe(
    cycle: SyncCycle,
    slots: Vec<RemoteSlot>,
    safe_lsn: u64,
    wal_end: u64,
)
    requires
        cycle.phase == (CyclePhase::ReadWalEnd { slots, safe_lsn }),
    ensures
        cycle.next(Reply::LatestWalEnd(wal_end)).phase matches CyclePhase::ReadReceived {
            oldest,
            ..
        } ==> safe_lsn != INVALID_XLOG_REC_PTR && wal_end != INVALID_XLOG_REC_PTR && oldest
            <= wal_end,
{
}

// ---------------------------------------------------------------------------
// Dropping extra slots
// ---------------------------------------------------------------------------

/// No two slots in use have the same name.
pub open spec fn names_are_unique(slots: Seq<LocalSlot>) -> bool {
    forall|i: int, j: int|
        0 <= i < j < slots.len() && (#[trigger] slots[i]).in_use && (#[trigger] slots[j]).in_use
            ==> slots[i].name@ != slots[j].name@
}

/// The slots after the extra ones were dropped one by one, the first one each time.
pub open spec fn drop_all_extra(slots: Seq<LocalSlot>, names: Seq<Seq<char>>) -> Seq<
    LocalSlot,
>
    decreases slots.len(),
{
    let extra = first_extra(slots, names) as int;
    if extra < slots.len() {
        drop_all_extra(slots.remove(extra), names)
    } else {
        slots
    }
}

/// Where names are unique, to drop the slot by its name is to take away that slot alone.
pub proof fn dropping_by_name_takes_one_slot(slots: Seq<LocalSlot>, names: Seq<Seq<char>>)
    requires
        names_are_unique(slots),
        first_extra(slots, names) < slots.len(),
    ensures
        ({
            let extra = first_extra(slots, names) as int;
            slots.filter(|s: LocalSlot| !(s.in_use && s.name@ == slots[extra].name@))
                == slots.remove(extra)
        }),
{
    lemma_first_extra(slots, names);
    let extra = first_extra(slots, names) as int;
    let keep = |s: LocalSlot| !(s.in_use && s.name@ == slots[extra].name@);
    assert(is_extra(slots[extra], names));
    assert forall|i: int| 0 <= i < slots.len() && i != extra implies keep(#[trigger] slots[i]) by {
        if i < extra {
            assert(slots[i].in_use && slots[extra].in_use ==> slots[i].name@ != slots[extra].name@);
        } else {
            assert(slots[extra].in_use && slots[i].in_use ==> slots[extra].name@ != slots[i].name@);
        }
    }
    lemma_filter_all_but(slots, extra, keep);
}

/// The slots that are not extra.
pub open spec fn not_extra(names: Seq<Seq<char>>) -> spec_fn(LocalSlot) -> bool {
    |s: LocalSlot| !is_extra(s, names)
}

/// Dropping the extra slots one by one comes to an end, and leaves exactly the slots that are
/// not extra, in their order.
pub proof fn dropping_leaves_what_is_not_extra(
    slots: Seq<LocalSlot>,
    names: Seq<Seq<char>>,
)
    ensures
        drop_all_extra(slots, names) == slots.filter(not_extra(names)),
        first_extra(drop_all_extra(slots, names), names) == drop_all_extra(
            slots,
            names,
        ).len(),
    decreases slots.len(),
{
    lemma_first_extra(slots, names);
    let keep = not_extra(names);
    let extra = first_extra(slots, names) as int;
    if extra < slots.len() {
        dropping_leaves_what_is_not_extra(slots.remove(extra), names);
        lemma_filter_without(slots, extra, keep);
    } else {
        lemma_filter_all(slots, keep);
    }
}

proof fn lemma_filter_without(slots: Seq<LocalSlot>, n: int, keep: spec_fn(LocalSlot) -> bool)
    requires
        0 <= n < slots.len(),
        !keep(slots[n]),
    ensures
        slots.filter(keep) == slots.remove(n).filter(keep),
{
    let head = slots.take(n);
    let one = seq![slots[n]];
    let tail = slots.skip(n + 1);
    assert(slots =~= head + (one + tail));
    assert(slots.remove(n) =~= head + tail);
    Seq::filter_distributes_over_add(head, one + tail, keep);
    Seq::filter_distributes_over_add(one, tail, keep);
    Seq::filter_distributes_over_add(head, tail, keep);
    reveal_with_fuel(Seq::filter, 2);
    assert(one.filter(keep) + tail.filter(keep) =~= tail.filter(keep));
}

proof fn lemma_filter_all_but(slots: Seq<LocalSlot>, n: int, keep: spec_fn(LocalSlot) -> bool)
    requires
        0 <= n < slots.len(),
        !keep(slots[n]),
        forall|i: int| 0 <= i < slots.len() && i != n ==> keep(#[trigger] slots[i]),
    ensures
        slots.filter(keep) == slots.remove(n),
{
    let rest = slots.remove(n);
    lemma_filter_without(slots, n, keep);
    assert forall|i: int| 0 <= i < rest.len() implies keep(#[trigger] rest[i]) by {
        assert(rest[i] == slots[if i < n {
            i
        } else {
            i + 1
        }]);
    }
    lemma_filter_all(rest, keep);
}

proof fn lemma_filter_all(slots: Seq<LocalSlot>, keep: spec_fn(LocalSlot) -> bool)
    requires
        forall|i: int| 0 <= i < slots.len() ==> keep(#[trigger] slots[i]),
    ensures
        slots.filter(keep) == slots,
    decreases slots.len(),
{
    reveal(Seq::filter);
    if slots.len() > 0 {
        let head = slots.drop_last();
        assert forall|i: int| 0 <= i < head.len() implies keep(#[trigger] head[i]) by {
            assert(head[i] == slots[i]);
        }
        lemma_filter_all(head, keep);
        assert(keep(slots[slots.len() - 1]));
        assert(head.push(slots.last()) =~= slots);
    }
}

} // verus!
