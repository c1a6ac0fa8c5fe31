//! Synchronization of logical replication slots from the primary to a standby.
//!
//! Three state machines, one inside the other: a [`SyncCycle`] goes through all slots of the
//! primary, a [`SlotSync`] brings one of them over, and a [`CatchupWait`] waits until the
//! primary's slot has passed what could be reserved for a new local one.

use crate::guc::{
    contains_name, filter_views, get_drop_extra_slots, get_synchronize_slot_names, name_views,
    FailoverSlotFilter, Settings,
};
use crate::pg_compat::{
    copy_bytes, is_minimum_from, overwritten, transaction_id_follows_or_equals,
    transaction_id_precedes, xid_follows_or_equals, xid_follows_or_equals_iff_not_precedes,
    xid_precedes, INVALID_OID, INVALID_XLOG_REC_PTR, NAMEDATALEN,
};
use crate::remote::RemoteSlot;
use crate::server::{
    CatchupResult, CycleEnd, LocalSlot, Reply, Request, SlotOutcome, SlotPosition, StandbyStatus,
};
use crate::WORKER_WAIT_FEEDBACK;
use vstd::prelude::*;
use vstd::string::StringSliceAdditionalSpecFns;

verus! {

// ---------------------------------------------------------------------------
// Positions
// ---------------------------------------------------------------------------

/// A local slot at `position` would have to move backward to get to where `slot` is.
pub open spec fn is_behind(slot: RemoteSlot, position: SlotPosition) -> bool {
    ||| slot.restart_lsn < position.restart_lsn
    ||| xid_precedes(slot.catalog_xmin, position.catalog_xmin)
}

/// The primary's slot has reached the position of the local one.
pub open spec fn has_reached(slot: RemoteSlot, position: SlotPosition) -> bool {
    &&& slot.restart_lsn >= position.restart_lsn
    &&& xid_follows_or_equals(slot.catalog_xmin, position.catalog_xmin)
}

/// A slot has reached a position exactly when it is not behind it.
pub proof fn has_reached_iff_not_behind(slot: RemoteSlot, position: SlotPosition)
    ensures
        has_reached(slot, position) <==> !is_behind(slot, position),
{
    xid_follows_or_equals_iff_not_precedes(slot.catalog_xmin, position.catalog_xmin);
}

/// Whether a local slot would have to move backward.
pub fn moves_backward(slot: &RemoteSlot, position: SlotPosition) -> (behind: bool)
    ensures
        behind == is_behind(*slot, position),
{
    slot.restart_lsn < position.restart_lsn || transaction_id_precedes(
        slot.catalog_xmin,
        position.catalog_xmin,
    )
}

/// The smaller of two positions.
pub open spec fn min_lsn(a: u64, b: u64) -> u64 {
    if a > b {
        b
    } else {
        a
    }
}

/// A slot whose positions are no further than given.
pub open spec fn limited(slot: RemoteSlot, restart_max: u64, confirmed_max: u64) -> RemoteSlot {
    RemoteSlot {
        restart_lsn: min_lsn(slot.restart_lsn, restart_max),
        confirmed_lsn: min_lsn(slot.confirmed_lsn, confirmed_max),
        ..slot
    }
}

/// Move the positions of a slot back to where they are no further than given.
pub fn limit_positions(slot: &mut RemoteSlot, restart_max: u64, confirmed_max: u64)
    ensures
        *final(slot) == limited(*old(slot), restart_max, confirmed_max),
{
    if slot.restart_lsn > restart_max {
        slot.restart_lsn = restart_max;
    }
    if slot.confirmed_lsn > confirmed_max {
        slot.confirmed_lsn = confirmed_max;
    }
}

// ---------------------------------------------------------------------------
// Wait for the primary's slot to catch up
// ---------------------------------------------------------------------------

/// Where a [`CatchupWait`] stands.
pub enum CatchupPhase {
    Connect,
    CheckInterrupts,
    CheckRecovery,
    Fetch,
    /// The primary's slot was found; up to where is the log here?
    ReadReceived { found: RemoteSlot },
    /// The primary's slot is still behind.
    Sleep { found: RemoteSlot },
    Disconnect { result: CatchupResult },
    Finished { result: CatchupResult },
    /// The postmaster is gone.
    Exit,
}

/// Waits until the slot on the primary has advanced past the position that was reserved for
/// the local one.
pub struct CatchupWait {
    /// The slot, at the position where it was last found to have caught up.
    pub slot: RemoteSlot,
    /// The position of the local slot.
    pub position: SlotPosition,
    pub phase: CatchupPhase,
}

impl CatchupWait {
    /// Start to wait for `slot` to reach `position`.
    pub open spec fn starting(slot: RemoteSlot, position: SlotPosition) -> CatchupWait {
        CatchupWait { slot, position, phase: CatchupPhase::Connect }
    }

    /// Start to wait for `slot` to reach `position`.
    pub fn start(slot: RemoteSlot, position: SlotPosition) -> (wait: CatchupWait)
        ensures
            wait == CatchupWait::starting(slot, position),
    {
        CatchupWait { slot, position, phase: CatchupPhase::Connect }
    }

    /// What the wait needs next.
    pub open spec fn pending(&self) -> Request<'_> {
        match self.phase {
            CatchupPhase::Connect => Request::ConnectDatabase { database: &self.slot.database },
            CatchupPhase::CheckInterrupts => Request::CheckInterrupts,
            CatchupPhase::CheckRecovery => Request::CheckRecovery,
            CatchupPhase::Fetch => Request::FetchNamedSlot { name: &self.slot.name },
            CatchupPhase::ReadReceived { .. } => Request::ReadReceivedLsn,
            CatchupPhase::Sleep { found } => Request::WaitForRetry {
                found: &found,
                position: self.position,
            },
            CatchupPhase::Disconnect { .. } => Request::Disconnect,
            CatchupPhase::Finished { .. } => Request::Nothing,
            CatchupPhase::Exit => Request::Exit { code: 1, timed_out: false },
        }
    }

    /// What the wait needs next.
    pub fn request(&self) -> (request: Request<'_>)
        ensures
            request == self.pending(),
    {
        match &self.phase {
            CatchupPhase::Connect => Request::ConnectDatabase { database: &self.slot.database },
            CatchupPhase::CheckInterrupts => Request::CheckInterrupts,
            CatchupPhase::CheckRecovery => Request::CheckRecovery,
            CatchupPhase::Fetch => Request::FetchNamedSlot { name: &self.slot.name },
            CatchupPhase::ReadReceived { .. } => Request::ReadReceivedLsn,
            CatchupPhase::Sleep { found } => Request::WaitForRetry {
                found,
                position: self.position,
            },
            CatchupPhase::Disconnect { .. } => Request::Disconnect,
            CatchupPhase::Finished { .. } => Request::Nothing,
            CatchupPhase::Exit => Request::Exit { code: 1, timed_out: false },
        }
    }

    /// The wait after the standby told that it has the log up to `received`.
    pub open spec fn compared(self, found: RemoteSlot, received: u64) -> CatchupWait {
        let found = limited(found, received, received);
        if has_reached(found, self.position) {
            CatchupWait {
                slot: RemoteSlot {
                    restart_lsn: found.restart_lsn,
                    confirmed_lsn: found.confirmed_lsn,
                    catalog_xmin: found.catalog_xmin,
                    ..self.slot
                },
                position: self.position,
                phase: CatchupPhase::Disconnect { result: CatchupResult::CaughtUp },
            }
        } else {
            CatchupWait { phase: CatchupPhase::Sleep { found }, ..self }
        }
    }

    /// The wait after a reply. A reply that does not answer what is pending changes nothing.
    pub open spec fn next(self, reply: Reply) -> CatchupWait {
        match (self.phase, reply) {
            (CatchupPhase::Connect, Reply::Connected(connected)) => CatchupWait {
                phase: if connected {
                    CatchupPhase::CheckInterrupts
                } else {
                    CatchupPhase::Finished { result: CatchupResult::CannotConnect }
                },
                ..self
            },
            (CatchupPhase::CheckInterrupts, Reply::Done) => CatchupWait {
                phase: CatchupPhase::CheckRecovery,
                ..self
            },
            (CatchupPhase::CheckRecovery, Reply::InRecovery(in_recovery)) => CatchupWait {
                phase: if in_recovery {
                    CatchupPhase::Fetch
                } else {
                    CatchupPhase::Disconnect { result: CatchupResult::Promoted }
                },
                ..self
            },
            (CatchupPhase::Fetch, Reply::RemoteSlots(answer)) => CatchupWait {
                phase: match answer {
                    Some(slots) => if slots@.len() == 0 {
                        CatchupPhase::Disconnect { result: CatchupResult::SlotGone }
                    } else {
                        CatchupPhase::ReadReceived { found: slots@[0] }
                    },
                    None => CatchupPhase::Disconnect { result: CatchupResult::FetchFailed },
                },
                ..self
            },
            (CatchupPhase::ReadReceived { found }, Reply::ReceivedLsn(received)) => self.compared(
                found,
                received,
            ),
            (CatchupPhase::Sleep { .. }, Reply::Woken { postmaster_died }) => CatchupWait {
                phase: if postmaster_died {
                    CatchupPhase::Exit
                } else {
                    CatchupPhase::CheckInterrupts
                },
                ..self
            },
            (CatchupPhase::Disconnect { result }, Reply::Done) => CatchupWait {
                phase: CatchupPhase::Finished { result },
                ..self
            },
            _ => self,
        }
    }
}

/// Go on with a wait for the primary's slot.
pub fn wait_for_primary_slot_catchup(wait: CatchupWait, reply: Reply) -> (after: CatchupWait)
    ensures
        after == wait.next(reply),
{
    let CatchupWait { mut slot, position, phase } = wait;
    let phase: CatchupPhase = match (phase, reply) {
        (CatchupPhase::Connect, Reply::Connected(connected)) => if connected {
            CatchupPhase::CheckInterrupts
        } else {
            CatchupPhase::Finished { result: CatchupResult::CannotConnect }
        },
        (CatchupPhase::CheckInterrupts, Reply::Done) => CatchupPhase::CheckRecovery,
        (CatchupPhase::CheckRecovery, Reply::InRecovery(in_recovery)) => if in_recovery {
            CatchupPhase::Fetch
        } else {
            CatchupPhase::Disconnect { result: CatchupResult::Promoted }
        },
        (CatchupPhase::Fetch, Reply::RemoteSlots(answer)) => match answer {
            Some(slots) => if slots.len() == 0 {
                CatchupPhase::Disconnect { result: CatchupResult::SlotGone }
            } else {
                CatchupPhase::ReadReceived { found: slots[0].clone() }
            },
            None => CatchupPhase::Disconnect { result: CatchupResult::FetchFailed },
        },
        (CatchupPhase::ReadReceived { found }, Reply::ReceivedLsn(received)) => {
            let mut found: RemoteSlot = found;
            limit_positions(&mut found, received, received);
            if found.restart_lsn >= position.restart_lsn && transaction_id_follows_or_equals(
                found.catalog_xmin,
                position.catalog_xmin,
            ) {
                slot.restart_lsn = found.restart_lsn;
                slot.confirmed_lsn = found.confirmed_lsn;
                slot.catalog_xmin = found.catalog_xmin;
                CatchupPhase::Disconnect { result: CatchupResult::CaughtUp }
            } else {
                CatchupPhase::Sleep { found }
            }
        },
        (CatchupPhase::Sleep { .. }, Reply::Woken { postmaster_died }) => if postmaster_died {
            CatchupPhase::Exit
        } else {
            CatchupPhase::CheckInterrupts
        },
        (CatchupPhase::Disconnect { result }, Reply::Done) => CatchupPhase::Finished { result },
        (phase, _) => phase,
    };
    CatchupWait { slot, position, phase }
}

/// How long a single sleep may last, in milliseconds, before it is reported that the wait still
/// goes on: five intervals, half a minute at most.
pub open spec fn report_interval(retry_interval: i32) -> i32 {
    (if retry_interval * 5 < 30_000 {
        retry_interval * 5
    } else {
        30_000
    }) as i32
}

/// How long a single sleep may last before it is reported that the wait still goes on.
pub fn catchup_report_interval(retry_interval: i32) -> (ms: i32)
    ensures
        ms == report_interval(retry_interval),
{
    let intervals: i64 = retry_interval as i64 * 5;
    if intervals < 30_000 {
        intervals as i32
    } else {
        30_000
    }
}

/// Whether it is to be reported that the wait still goes on: the last sleep began, and from its
/// begin until now at least as long has passed as a single sleep may last. Times are in
/// microseconds, and 0 stands for no sleep yet.
pub fn reports_wait(sleep_start: i64, now: i64, retry_interval: i32) -> (report: bool)
    ensures
        report <==> sleep_start > 0 && now - sleep_start >= report_interval(retry_interval) * 1000,
{
    let waited: i128 = now as i128 - sleep_start as i128;
    let limit: i128 = catchup_report_interval(retry_interval) as i128 * 1000;
    sleep_start > 0 && waited >= limit
}

// ---------------------------------------------------------------------------
// Synchronization of a single slot
// ---------------------------------------------------------------------------

/// A slot of that name is in use.
pub open spec fn slot_exists(slots: Seq<LocalSlot>, name: Seq<char>) -> bool {
    exists|i: int| 0 <= i < slots.len() && (#[trigger] slots[i]).in_use && slots[i].name@ == name
}

/// Whether a slot of that name is in use.
pub fn find_local_slot(slots: &Vec<LocalSlot>, name: &String) -> (found: bool)
    ensures
        found == slot_exists(slots@, name@),
{
    let mut i: usize = 0;
    while i < slots.len()
        invariant
            i <= slots@.len(),
            forall|j: int|
                0 <= j < i ==> !((#[trigger] slots@[j]).in_use && slots@[j].name@ == name@),
        decreases slots@.len() - i,
    {
        if slots[i].in_use && slots[i].name == *name {
            return true;
        }
        i = i + 1;
    }
    false
}

/// Copy the name of an output plugin, with its terminating NUL, into the name of that size in a
/// slot. A name that is too long is cut off, without a NUL.
pub fn copy_plugin_name(dest: &mut [u8], plugin: &str)
    requires
        old(dest)@.len() == NAMEDATALEN,
    ensures
        ({
            let bytes = plugin.spec_bytes();
            final(dest)@ == overwritten(
                old(dest)@,
                if bytes.len() < NAMEDATALEN {
                    bytes.push(0)
                } else {
                    bytes.take(NAMEDATALEN as int)
                },
            )
        }),
{
    let ghost before = dest@;
    let bytes: &[u8] = plugin.as_bytes();
    if bytes.len() < NAMEDATALEN {
        copy_bytes(dest, bytes, bytes.len());
        dest[bytes.len()] = 0;
        assert(bytes@.take(bytes@.len() as int) =~= bytes@);
        assert(dest@ =~= overwritten(before, bytes@.push(0)));
    } else {
        copy_bytes(dest, bytes, NAMEDATALEN);
    }
}

/// Where a [`SlotSync`] stands.
pub enum SlotPhase {
    CheckRecovery,
    Begin,
    /// Is there a local slot of that name?
    Search,
    Acquire,
    Create,
    /// A new slot waits for the primary's.
    Catchup { wait: CatchupWait },
    /// The slot in hand, found at `position`, is to move forward.
    Advance { created: bool, position: SlotPosition },
    Store { created: bool },
    Release { outcome: SlotOutcome },
    Commit { outcome: SlotOutcome },
    Finished { outcome: SlotOutcome },
}

/// Synchronizes a single logical replication slot from the primary to this standby.
pub struct SlotSync {
    /// The slot of the primary.
    pub slot: RemoteSlot,
    pub phase: SlotPhase,
}

impl SlotSync {
    /// Start to synchronize a slot.
    pub open spec fn starting(slot: RemoteSlot) -> SlotSync {
        SlotSync { slot, phase: SlotPhase::CheckRecovery }
    }

    /// Start to synchronize a slot.
    pub fn start(slot: RemoteSlot) -> (sync: SlotSync)
        ensures
            sync == SlotSync::starting(slot),
    {
        SlotSync { slot, phase: SlotPhase::CheckRecovery }
    }

    /// What the synchronization needs next.
    pub open spec fn pending(&self) -> Request<'_> {
        match self.phase {
            SlotPhase::CheckRecovery => Request::CheckRecovery,
            SlotPhase::Begin => Request::BeginTransaction,
            SlotPhase::Search => Request::ListLocalSlots,
            SlotPhase::Acquire => Request::AcquireSlot { name: &self.slot.name },
            SlotPhase::Create => Request::CreateSlot { slot: &self.slot },
            SlotPhase::Catchup { wait } => wait.pending(),
            SlotPhase::Advance { .. } => Request::AdvanceSlot { slot: &self.slot },
            SlotPhase::Store { created } => if created {
                Request::PersistSlot
            } else {
                Request::SaveSlot
            },
            SlotPhase::Release { outcome } => Request::ReleaseSlot { slot: &self.slot, outcome },
            SlotPhase::Commit { .. } => Request::CommitTransaction,
            SlotPhase::Finished { .. } => Request::Nothing,
        }
    }

    /// What the synchronization needs next.
    pub fn request(&self) -> (request: Request<'_>)
        ensures
            request == self.pending(),
    {
        match &self.phase {
            SlotPhase::CheckRecovery => Request::CheckRecovery,
            SlotPhase::Begin => Request::BeginTransaction,
            SlotPhase::Search => Request::ListLocalSlots,
            SlotPhase::Acquire => Request::AcquireSlot { name: &self.slot.name },
            SlotPhase::Create => Request::CreateSlot { slot: &self.slot },
            SlotPhase::Catchup { wait } => wait.request(),
            SlotPhase::Advance { .. } => Request::AdvanceSlot { slot: &self.slot },
            SlotPhase::Store { created } => if *created {
                Request::PersistSlot
            } else {
                Request::SaveSlot
            },
            SlotPhase::Release { outcome } => Request::ReleaseSlot {
                slot: &self.slot,
                outcome: *outcome,
            },
            SlotPhase::Commit { .. } => Request::CommitTransaction,
            SlotPhase::Finished { .. } => Request::Nothing,
        }
    }

    /// The synchronization after its wait for the primary went on: with the position that the
    /// primary's slot reached once it has caught up, given up once the wait ended otherwise.
    pub open spec fn waiting(self, wait: CatchupWait) -> SlotSync {
        match wait.phase {
            CatchupPhase::Finished { result } => if result is CaughtUp {
                SlotSync {
                    slot: wait.slot,
                    phase: SlotPhase::Advance { created: true, position: wait.position },
                }
            } else {
                SlotSync {
                    phase: SlotPhase::Release { outcome: SlotOutcome::NotCaughtUp },
                    ..self
                }
            },
            _ => SlotSync { phase: SlotPhase::Catchup { wait }, ..self },
        }
    }

    /// The synchronization after a reply. A reply that does not answer what is pending changes
    /// nothing.
    pub open spec fn next(self, reply: Reply) -> SlotSync {
        match (self.phase, reply) {
            (SlotPhase::CheckRecovery, Reply::InRecovery(in_recovery)) => SlotSync {
                phase: if in_recovery {
                    SlotPhase::Begin
                } else {
                    SlotPhase::Finished { outcome: SlotOutcome::NotInRecovery }
                },
                ..self
            },
            (SlotPhase::Begin, Reply::Done) => SlotSync { phase: SlotPhase::Search, ..self },
            (SlotPhase::Search, Reply::LocalSlots(slots)) => SlotSync {
                phase: if slot_exists(slots@, self.slot.name@) {
                    SlotPhase::Acquire
                } else {
                    SlotPhase::Create
                },
                ..self
            },
            (SlotPhase::Acquire, Reply::Position(position)) => SlotSync {
                phase: if is_behind(self.slot, position) {
                    SlotPhase::Release { outcome: SlotOutcome::WouldMoveBackward }
                } else {
                    SlotPhase::Advance { created: false, position }
                },
                ..self
            },
            (SlotPhase::Create, Reply::Position(position)) => SlotSync {
                phase: if is_behind(self.slot, position) {
                    SlotPhase::Catchup { wait: CatchupWait::starting(self.slot, position) }
                } else {
                    SlotPhase::Advance { created: true, position }
                },
                ..self
            },
            (SlotPhase::Catchup { wait }, reply) => self.waiting(wait.next(reply)),
            (SlotPhase::Advance { created, .. }, Reply::Done) => SlotSync {
                phase: SlotPhase::Store { created },
                ..self
            },
            (SlotPhase::Store { created }, Reply::Done) => SlotSync {
                phase: SlotPhase::Release {
                    outcome: if created {
                        SlotOutcome::Created
                    } else {
                        SlotOutcome::Updated
                    },
                },
                ..self
            },
            (SlotPhase::Release { outcome }, Reply::Done) => SlotSync {
                phase: SlotPhase::Commit { outcome },
                ..self
            },
            (SlotPhase::Commit { outcome }, Reply::Done) => SlotSync {
                phase: SlotPhase::Finished { outcome },
                ..self
            },
            _ => self,
        }
    }
}

/// Go on with the synchronization of a slot.
pub fn synchronize_one_slot(sync: SlotSync, reply: Reply) -> (after: SlotSync)
    ensures
        after == sync.next(reply),
{
    let SlotSync { mut slot, phase } = sync;
    let phase: SlotPhase = match (phase, reply) {
        (SlotPhase::CheckRecovery, Reply::InRecovery(in_recovery)) => if in_recovery {
            SlotPhase::Begin
        } else {
            SlotPhase::Finished { outcome: SlotOutcome::NotInRecovery }
        },
        (SlotPhase::Begin, Reply::Done) => SlotPhase::Search,
        (SlotPhase::Search, Reply::LocalSlots(slots)) => if find_local_slot(&slots, &slot.name) {
            SlotPhase::Acquire
        } else {
            SlotPhase::Create
        },
        (SlotPhase::Acquire, Reply::Position(position)) => if moves_backward(&slot, position) {
            SlotPhase::Release { outcome: SlotOutcome::WouldMoveBackward }
        } else {
            SlotPhase::Advance { created: false, position }
        },
        (SlotPhase::Create, Reply::Position(position)) => if moves_backward(&slot, position) {
            SlotPhase::Catchup { wait: CatchupWait::start(slot.clone(), position) }
        } else {
            SlotPhase::Advance { created: true, position }
        },
        (SlotPhase::Catchup { wait }, reply) => {
            let CatchupWait { slot: reached, position, phase } = wait_for_primary_slot_catchup(
                wait,
                reply,
            );
            match phase {
                CatchupPhase::Finished { result: CatchupResult::CaughtUp } => {
                    slot = reached;
                    SlotPhase::Advance { created: true, position }
                },
                CatchupPhase::Finished { .. } => SlotPhase::Release {
                    outcome: SlotOutcome::NotCaughtUp,
                },
                phase => SlotPhase::Catchup { wait: CatchupWait { slot: reached, position, phase } },
            }
        },
        (SlotPhase::Advance { created, .. }, Reply::Done) => SlotPhase::Store { created },
        (SlotPhase::Store { created }, Reply::Done) => SlotPhase::Release {
            outcome: if created {
                SlotOutcome::Created
            } else {
                SlotOutcome::Updated
            },
        },
        (SlotPhase::Release { outcome }, Reply::Done) => SlotPhase::Commit { outcome },
        (SlotPhase::Commit { outcome }, Reply::Done) => SlotPhase::Finished { outcome },
        (phase, _) => phase,
    };
    SlotSync { slot, phase }
}

// ---------------------------------------------------------------------------
// Local slots that the primary does not have
// ---------------------------------------------------------------------------

/// A logical slot that is in use, that no process has acquired, and that is not among the names
/// of the primary's slots.
pub open spec fn is_extra(slot: LocalSlot, names: Seq<Seq<char>>) -> bool {
    &&& slot.in_use
    &&& slot.active_pid == 0
    &&& slot.database != INVALID_OID
    &&& !names.contains(slot.name@)
}

/// The index of the first extra slot, the number of slots if there is none.
pub open spec fn first_extra(slots: Seq<LocalSlot>, names: Seq<Seq<char>>) -> nat
    decreases slots.len(),
{
    if slots.len() == 0 || is_extra(slots.first(), names) {
        0
    } else {
        1 + first_extra(slots.drop_first(), names)
    }
}

/// What [`first_extra`] is: an index before which no slot is extra and at which one is, unless
/// the slots end there.
pub proof fn lemma_first_extra(slots: Seq<LocalSlot>, names: Seq<Seq<char>>)
    ensures
        first_extra(slots, names) <= slots.len(),
        forall|i: int|
            0 <= i < first_extra(slots, names) ==> !is_extra(
                #[trigger] slots[i],
                names,
            ),
        first_extra(slots, names) < slots.len() ==> is_extra(
            slots[first_extra(slots, names) as int],
            names,
        ),
    decreases slots.len(),
{
    if slots.len() > 0 && !is_extra(slots.first(), names) {
        let rest = slots.drop_first();
        lemma_first_extra(rest, names);
        assert forall|i: int| 0 <= i < first_extra(slots, names) implies !is_extra(
            #[trigger] slots[i],
            names,
        ) by {
            if i > 0 {
                assert(rest[i - 1] == slots[i]);
            }
        }
    }
}

/// The index that fits what [`lemma_first_extra`] states is the only one.
proof fn lemma_first_extra_unique(slots: Seq<LocalSlot>, names: Seq<Seq<char>>, n: int)
    requires
        0 <= n <= slots.len(),
        forall|i: int| 0 <= i < n ==> !is_extra(#[trigger] slots[i], names),
        n < slots.len() ==> is_extra(slots[n], names),
    ensures
        first_extra(slots, names) == n,
{
    lemma_first_extra(slots, names);
    let m = first_extra(slots, names) as int;
    if m < n {
        assert(is_extra(slots[m], names));
    } else if n < m {
        assert(!is_extra(slots[n], names));
    }
}

/// The name of the next local logical slot to drop because it is not among the names of the
/// primary's slots. Slots are dropped one by one, each time with the slots listed anew, until
/// there is none.
pub fn drop_extra_local_slots(slots: &Vec<LocalSlot>, names: &Vec<String>) -> (drop: Option<
    String,
>)
    ensures
        ({
            let extra = first_extra(slots@, name_views(names@));
            match drop {
                Some(name) => extra < slots@.len() && name == slots@[extra as int].name,
                None => extra == slots@.len(),
            }
        }),
{
    let mut i: usize = 0;
    while i < slots.len()
        invariant
            i <= slots@.len(),
            forall|j: int| 0 <= j < i ==> !is_extra(#[trigger] slots@[j], name_views(names@)),
        decreases slots@.len() - i,
    {
        let s: &LocalSlot = &slots[i];
        if s.in_use && s.active_pid == 0 && s.database != INVALID_OID && !contains_name(
            names,
            &s.name,
        ) {
            proof {
                lemma_first_extra_unique(slots@, name_views(names@), i as int);
            }
            return Some(s.name.clone());
        }
        i = i + 1;
    }
    proof {
        lemma_first_extra_unique(slots@, name_views(names@), i as int);
    }
    None
}

// ---------------------------------------------------------------------------
// Main synchronization cycle
// ---------------------------------------------------------------------------

/// The oldest of the positions that come after the last unset one, unset where none does: the
/// positions are read from left to right, and an unset one restarts the search.
pub open spec fn oldest_after_unset(positions: Seq<u64>) -> u64
    decreases positions.len(),
{
    if positions.len() == 0 {
        INVALID_XLOG_REC_PTR
    } else {
        older_lsn(oldest_after_unset(positions.drop_last()), positions.last())
    }
}

/// The older of the position found so far and the next one.
pub open spec fn older_lsn(oldest: u64, position: u64) -> u64 {
    if oldest == INVALID_XLOG_REC_PTR || position < oldest {
        position
    } else {
        oldest
    }
}

/// The older of the oldest position found so far, which may be none, and the next one.
fn pick_older_lsn(oldest: u64, position: u64) -> (r: u64)
    ensures
        r == older_lsn(oldest, position),
{
    if oldest == INVALID_XLOG_REC_PTR || position < oldest {
        position
    } else {
        oldest
    }
}

/// Where all positions from `start` on are valid and the one before `start` is not, the
/// oldest position is the minimum from `start` on, and invalid when nothing is left there.
pub proof fn oldest_after_unset_is_minimum_from_there(positions: Seq<u64>, start: int)
    requires
        0 <= start <= positions.len(),
        start > 0 ==> positions[start - 1] == INVALID_XLOG_REC_PTR,
        forall|i: int| start <= i < positions.len() ==> positions[i] != INVALID_XLOG_REC_PTR,
    ensures
        start == positions.len() ==> oldest_after_unset(positions) == INVALID_XLOG_REC_PTR,
        start < positions.len() ==> is_minimum_from(positions, start, oldest_after_unset(positions)),
    decreases positions.len(),
{
    if start < positions.len() {
        let rest = positions.drop_last();
        oldest_after_unset_is_minimum_from_there(rest, start);
        let found = oldest_after_unset(positions);
        if start < rest.len() {
            let i = choose|i: int| start <= i < rest.len() && rest[i] == oldest_after_unset(rest);
            assert(positions[i] == oldest_after_unset(rest));
            assert(forall|j: int| start <= j < rest.len() ==> positions[j] == rest[j]);
            assert(found == positions[i] || found == positions[positions.len() - 1]);
        } else {
            assert(found == positions[positions.len() - 1]);
        }
    } else if positions.len() > 0 {
        assert(positions.last() == INVALID_XLOG_REC_PTR);
    }
}

/// Where every position is valid and there is one, the oldest is the minimum of all.
pub proof fn oldest_after_unset_is_minimum(positions: Seq<u64>)
    requires
        positions.len() > 0,
        forall|i: int| 0 <= i < positions.len() ==> positions[i] != INVALID_XLOG_REC_PTR,
    ensures
        is_minimum_from(positions, 0, oldest_after_unset(positions)),
{
    oldest_after_unset_is_minimum_from_there(positions, 0);
}

/// The restart positions of some slots.
pub open spec fn restart_lsns(slots: Seq<RemoteSlot>) -> Seq<u64> {
    slots.map_values(|s: RemoteSlot| s.restart_lsn)
}

/// The restart position that all slots are limited to: the oldest one after the last slot
/// without a position.
pub fn oldest_restart_lsn(slots: &Vec<RemoteSlot>) -> (lsn: u64)
    ensures
        lsn == oldest_after_unset(restart_lsns(slots@)),
{
    let ghost all = restart_lsns(slots@);
    let mut lsn: u64 = INVALID_XLOG_REC_PTR;
    let mut i: usize = 0;
    while i < slots.len()
        invariant
            i <= slots@.len(),
            all == restart_lsns(slots@),
            lsn == oldest_after_unset(all.take(i as int)),
        decreases slots@.len() - i,
    {
        assert(all.take(i + 1).drop_last() =~= all.take(i as int));
        lsn = pick_older_lsn(lsn, slots[i].restart_lsn);
        i = i + 1;
    }
    assert(all.take(all.len() as int) =~= all);
    lsn
}

/// Where a [`SyncCycle`] stands.
///
/// `own_slot` is the slot on the primary that this standby streams from, and `safe_lsn` its
/// position.
pub enum CyclePhase {
    Connect { own_slot: String },
    FetchSlots { own_slot: String },
    /// The primary's slots are known; where does this standby's own slot stand?
    FetchOwnLsn { own_slot: String, slots: Vec<RemoteSlot> },
    /// Extra slots are to be dropped; which names do the primary's slots have?
    FetchNames { slots: Vec<RemoteSlot>, safe_lsn: u64 },
    /// Without an answer that tells the names, no slot is to be dropped.
    Disconnect { slots: Vec<RemoteSlot>, safe_lsn: u64, answer: Option<Vec<String>> },
    /// The primary did not answer.
    Abandon,
    /// Is there a local slot that is not among the names of the primary's slots?
    ListLocal { slots: Vec<RemoteSlot>, safe_lsn: u64, names: Vec<String> },
    DropLocal { slots: Vec<RemoteSlot>, safe_lsn: u64, names: Vec<String>, name: String },
    ReadWalEnd { slots: Vec<RemoteSlot>, safe_lsn: u64 },
    /// The slot at `index` is next.
    ReadReceived { slots: Vec<RemoteSlot>, oldest: u64, index: usize },
    /// The slot at `index` is being synchronized.
    Synchronize { slots: Vec<RemoteSlot>, oldest: u64, index: usize, sync: SlotSync },
    Finished { end: CycleEnd },
}

/// Synchronizes all failover slots from the primary.
pub struct SyncCycle {
    pub settings: Settings,
    /// The usual time between two cycles, in milliseconds.
    pub sleep_time: i64,
    /// The last cycle found the positions of the slots safe.
    pub was_lsn_safe: bool,
    pub phase: CyclePhase,
}

impl SyncCycle {
    /// Start a cycle: it ends at once where the slots cannot be synchronized.
    pub open spec fn starting(
        settings: Settings,
        status: StandbyStatus,
        sleep_time: i64,
        was_lsn_safe: bool,
    ) -> SyncCycle {
        let phase = match status.wal_receiver_slot {
            Some(own_slot) => if settings.filters().len() == 0 {
                CyclePhase::Finished { end: CycleEnd::Skipped }
            } else if !status.hot_standby_feedback {
                CyclePhase::Finished { end: CycleEnd::FeedbackOff }
            } else if own_slot@.len() == 0 {
                CyclePhase::Finished { end: CycleEnd::NoPrimarySlotName }
            } else {
                CyclePhase::Connect { own_slot }
            },
            None => CyclePhase::Finished { end: CycleEnd::Skipped },
        };
        SyncCycle { settings, sleep_time, was_lsn_safe, phase }
    }

    /// Start a cycle.
    pub fn start(
        settings: Settings,
        status: StandbyStatus,
        sleep_time: i64,
        was_lsn_safe: bool,
    ) -> (cycle: SyncCycle)
        ensures
            cycle == SyncCycle::starting(settings, status, sleep_time, was_lsn_safe),
    {
        let filters: Vec<FailoverSlotFilter> = get_synchronize_slot_names(&settings);
        assert(filter_views(filters@).len() == filters@.len());
        let phase: CyclePhase = match status.wal_receiver_slot {
            Some(own_slot) => if filters.len() == 0 {
                CyclePhase::Finished { end: CycleEnd::Skipped }
            } else if !status.hot_standby_feedback {
                CyclePhase::Finished { end: CycleEnd::FeedbackOff }
            } else if own_slot.as_str().is_empty() {
                CyclePhase::Finished { end: CycleEnd::NoPrimarySlotName }
            } else {
                CyclePhase::Connect { own_slot }
            },
            None => CyclePhase::Finished { end: CycleEnd::Skipped },
        };
        SyncCycle { settings, sleep_time, was_lsn_safe, phase }
    }

    /// What the cycle needs next.
    pub open spec fn pending(&self) -> Request<'_> {
        match self.phase {
            CyclePhase::Connect { .. } => Request::ConnectMaintenance { settings: &self.settings },
            CyclePhase::FetchSlots { .. } => Request::FetchConfiguredSlots {
                settings: &self.settings,
            },
            CyclePhase::FetchOwnLsn { own_slot, .. } => Request::FetchSlotLsn { name: &own_slot },
            CyclePhase::FetchNames { .. } => Request::FetchSlotNames,
            CyclePhase::Disconnect { .. } => Request::Disconnect,
            CyclePhase::Abandon => Request::Disconnect,
            CyclePhase::ListLocal { .. } => Request::ListLocalSlots,
            CyclePhase::DropLocal { name, .. } => Request::DropLocalSlot { name: &name },
            CyclePhase::ReadWalEnd { .. } => Request::ReadLatestWalEnd,
            CyclePhase::ReadReceived { .. } => Request::ReadReceivedLsn,
            CyclePhase::Synchronize { sync, .. } => sync.pending(),
            CyclePhase::Finished { .. } => Request::Nothing,
        }
    }

    /// What the cycle needs next.
    pub fn request(&self) -> (request: Request<'_>)
        ensures
            request == self.pending(),
    {
        match &self.phase {
            CyclePhase::Connect { .. } => Request::ConnectMaintenance { settings: &self.settings },
            CyclePhase::FetchSlots { .. } => Request::FetchConfiguredSlots {
                settings: &self.settings,
            },
            CyclePhase::FetchOwnLsn { own_slot, .. } => Request::FetchSlotLsn { name: own_slot },
            CyclePhase::FetchNames { .. } => Request::FetchSlotNames,
            CyclePhase::Disconnect { .. } => Request::Disconnect,
            CyclePhase::Abandon => Request::Disconnect,
            CyclePhase::ListLocal { .. } => Request::ListLocalSlots,
            CyclePhase::DropLocal { name, .. } => Request::DropLocalSlot { name },
            CyclePhase::ReadWalEnd { .. } => Request::ReadLatestWalEnd,
            CyclePhase::ReadReceived { .. } => Request::ReadReceivedLsn,
            CyclePhase::Synchronize { sync, .. } => sync.request(),
            CyclePhase::Finished { .. } => Request::Nothing,
        }
    }

    /// The time to sleep after a cycle that ended as given: shorter while the primary and this
    /// standby do not know enough of each other.
    pub open spec fn sleep_after(self, end: CycleEnd) -> i64 {
        match end {
            CycleEnd::FeedbackNotSent | CycleEnd::AheadOfStandby { .. } => if self.sleep_time
                < WORKER_WAIT_FEEDBACK {
                self.sleep_time
            } else {
                WORKER_WAIT_FEEDBACK
            },
            _ => self.sleep_time,
        }
    }

    /// The suggested sleep time for a cycle that ended as given, in milliseconds.
    pub fn suggested_sleep(&self, end: CycleEnd) -> (ms: i64)
        ensures
            ms == self.sleep_after(end),
    {
        match end {
            CycleEnd::FeedbackNotSent | CycleEnd::AheadOfStandby { .. } => if self.sleep_time
                < WORKER_WAIT_FEEDBACK {
                self.sleep_time
            } else {
                WORKER_WAIT_FEEDBACK
            },
            _ => self.sleep_time,
        }
    }

    /// Where a cycle stands when no local slot is left to drop.
    pub open spec fn after_drops(slots: Vec<RemoteSlot>, safe_lsn: u64) -> CyclePhase {
        if slots@.len() == 0 {
            CyclePhase::Finished { end: CycleEnd::NothingToDo }
        } else {
            CyclePhase::ReadWalEnd { slots, safe_lsn }
        }
    }

    /// The cycle when the slots before `index` are done.
    pub open spec fn at_slot(self, slots: Vec<RemoteSlot>, oldest: u64, index: int) -> SyncCycle {
        if index < slots@.len() {
            SyncCycle {
                phase: CyclePhase::ReadReceived { slots, oldest, index: index as usize },
                ..self
            }
        } else {
            SyncCycle {
                phase: CyclePhase::Finished {
                    end: CycleEnd::Synchronized { resumed: !self.was_lsn_safe },
                },
                was_lsn_safe: true,
                ..self
            }
        }
    }

    /// The cycle when the end of the log is known: slots are synchronized only where the
    /// oldest position asked for is one that this standby has.
    pub open spec fn positioned(
        self,
        slots: Vec<RemoteSlot>,
        safe_lsn: u64,
        wal_end: u64,
    ) -> SyncCycle {
        let oldest = oldest_after_unset(restart_lsns(slots@));
        if safe_lsn == INVALID_XLOG_REC_PTR || wal_end == INVALID_XLOG_REC_PTR {
            SyncCycle {
                phase: CyclePhase::Finished { end: CycleEnd::FeedbackNotSent },
                was_lsn_safe: false,
                ..self
            }
        } else if wal_end < oldest {
            SyncCycle {
                phase: CyclePhase::Finished { end: CycleEnd::AheadOfStandby { oldest, wal_end } },
                was_lsn_safe: false,
                ..self
            }
        } else {
            self.at_slot(slots, oldest, 0)
        }
    }

    /// The cycle after the synchronization of the slot at `index` went on.
    pub open spec fn synchronizing(
        self,
        slots: Vec<RemoteSlot>,
        oldest: u64,
        index: usize,
        sync: SlotSync,
    ) -> SyncCycle {
        match sync.phase {
            SlotPhase::Finished { .. } => self.at_slot(slots, oldest, index + 1),
            _ => SyncCycle {
                phase: CyclePhase::Synchronize { slots, oldest, index, sync },
                ..self
            },
        }
    }

    /// The cycle after a reply. A reply that does not answer what is pending changes nothing.
    pub open spec fn next(self, reply: Reply) -> SyncCycle {
        match (self.phase, reply) {
            (CyclePhase::Connect { own_slot }, Reply::Connected(connected)) => SyncCycle {
                phase: if connected {
                    CyclePhase::FetchSlots { own_slot }
                } else {
                    CyclePhase::Finished { end: CycleEnd::CannotConnect }
                },
                ..self
            },
            (CyclePhase::FetchSlots { own_slot }, Reply::RemoteSlots(answer)) => SyncCycle {
                phase: match answer {
                    Some(slots) => CyclePhase::FetchOwnLsn { own_slot, slots },
                    None => CyclePhase::Abandon,
                },
                ..self
            },
            (CyclePhase::FetchOwnLsn { slots, .. }, Reply::SlotLsn(safe_lsn)) => SyncCycle {
                phase: if self.settings.drop_extra_slots {
                    CyclePhase::FetchNames { slots, safe_lsn }
                } else {
                    CyclePhase::Disconnect { slots, safe_lsn, answer: None }
                },
                ..self
            },
            (CyclePhase::FetchNames { slots, safe_lsn }, Reply::SlotNames(answer)) => SyncCycle {
                phase: CyclePhase::Disconnect { slots, safe_lsn, answer },
                ..self
            },
            (CyclePhase::Disconnect { slots, safe_lsn, answer }, Reply::Done) => SyncCycle {
                phase: match answer {
                    Some(names) => CyclePhase::ListLocal { slots, safe_lsn, names },
                    None => SyncCycle::after_drops(slots, safe_lsn),
                },
                ..self
            },
            (CyclePhase::Abandon, Reply::Done) => SyncCycle {
                phase: CyclePhase::Finished { end: CycleEnd::FetchFailed },
                ..self
            },
            (CyclePhase::ListLocal { slots, safe_lsn, names }, Reply::LocalSlots(local)) => {
                let extra = first_extra(local@, name_views(names@));
                SyncCycle {
                    phase: if extra < local@.len() {
                        CyclePhase::DropLocal {
                            slots,
                            safe_lsn,
                            names,
                            name: local@[extra as int].name,
                        }
                    } else {
                        SyncCycle::after_drops(slots, safe_lsn)
                    },
                    ..self
                }
            },
            (CyclePhase::DropLocal { slots, safe_lsn, names, .. }, Reply::Done) => SyncCycle {
                phase: CyclePhase::ListLocal { slots, safe_lsn, names },
                ..self
            },
            (CyclePhase::ReadWalEnd { slots, safe_lsn }, Reply::LatestWalEnd(wal_end)) =>
                self.positioned(slots, safe_lsn, wal_end),
            (CyclePhase::ReadReceived { slots, oldest, index }, Reply::ReceivedLsn(received)) =>
            if index < slots@.len() {
                SyncCycle {
                    phase: CyclePhase::Synchronize {
                        slots,
                        oldest,
                        index,
                        sync: SlotSync::starting(
                            limited(slots@[index as int], oldest, received),
                        ),
                    },
                    ..self
                }
            } else {
                self.at_slot(slots, oldest, index as int)
            },
            (CyclePhase::Synchronize { slots, oldest, index, sync }, reply) => self.synchronizing(
                slots,
                oldest,
                index,
                sync.next(reply),
            ),
            _ => self,
        }
    }
}

/// Where a cycle stands when no local slot is left to drop.
fn go_on_after_drops(slots: Vec<RemoteSlot>, safe_lsn: u64) -> (phase: CyclePhase)
    ensures
        phase == SyncCycle::after_drops(slots, safe_lsn),
{
    if slots.len() == 0 {
        CyclePhase::Finished { end: CycleEnd::NothingToDo }
    } else {
        CyclePhase::ReadWalEnd { slots, safe_lsn }
    }
}

/// Go on with a synchronization cycle.
pub fn synchronize_failover_slots(cycle: SyncCycle, reply: Reply) -> (after: SyncCycle)
    ensures
        after == cycle.next(reply),
{
    let SyncCycle { settings, sleep_time, mut was_lsn_safe, phase } = cycle;
    let phase: CyclePhase = match (phase, reply) {
        (CyclePhase::Connect { own_slot }, Reply::Connected(connected)) => if connected {
            CyclePhase::FetchSlots { own_slot }
        } else {
            CyclePhase::Finished { end: CycleEnd::CannotConnect }
        },
        (CyclePhase::FetchSlots { own_slot }, Reply::RemoteSlots(answer)) => match answer {
            Some(slots) => CyclePhase::FetchOwnLsn { own_slot, slots },
            None => CyclePhase::Abandon,
        },
        (CyclePhase::FetchOwnLsn { slots, .. }, Reply::SlotLsn(safe_lsn)) => {
            if get_drop_extra_slots(&settings) {
                CyclePhase::FetchNames { slots, safe_lsn }
            } else {
                CyclePhase::Disconnect { slots, safe_lsn, answer: None }
            }
        },
        (CyclePhase::FetchNames { slots, safe_lsn }, Reply::SlotNames(answer)) => {
            CyclePhase::Disconnect { slots, safe_lsn, answer }
        },
        (CyclePhase::Disconnect { slots, safe_lsn, answer }, Reply::Done) => match answer {
            Some(names) => CyclePhase::ListLocal { slots, safe_lsn, names },
            None => go_on_after_drops(slots, safe_lsn),
        },
        (CyclePhase::Abandon, Reply::Done) => CyclePhase::Finished { end: CycleEnd::FetchFailed },
        (CyclePhase::ListLocal { slots, safe_lsn, names }, Reply::LocalSlots(local)) => {
            match drop_extra_local_slots(&local, &names) {
                Some(name) => CyclePhase::DropLocal { slots, safe_lsn, names, name },
                None => go_on_after_drops(slots, safe_lsn),
            }
        },
        (CyclePhase::DropLocal { slots, safe_lsn, names, .. }, Reply::Done) => {
            CyclePhase::ListLocal { slots, safe_lsn, names }
        },
        (CyclePhase::ReadWalEnd { slots, safe_lsn }, Reply::LatestWalEnd(wal_end)) => {
            let oldest: u64 = oldest_restart_lsn(&slots);
            if safe_lsn == INVALID_XLOG_REC_PTR || wal_end == INVALID_XLOG_REC_PTR {
                was_lsn_safe = false;
                CyclePhase::Finished { end: CycleEnd::FeedbackNotSent }
            } else if wal_end < oldest {
                was_lsn_safe = false;
                CyclePhase::Finished { end: CycleEnd::AheadOfStandby { oldest, wal_end } }
            } else if slots.len() > 0 {
                CyclePhase::ReadReceived { slots, oldest, index: 0 }
            } else {
                let resumed: bool = !was_lsn_safe;
                was_lsn_safe = true;
                CyclePhase::Finished { end: CycleEnd::Synchronized { resumed } }
            }
        },
        (CyclePhase::ReadReceived { slots, oldest, index }, Reply::ReceivedLsn(received)) => {
            if index < slots.len() {
                let mut slot: RemoteSlot = slots[index].clone();
                limit_positions(&mut slot, oldest, received);
                CyclePhase::Synchronize { slots, oldest, index, sync: SlotSync::start(slot) }
            } else {
                let resumed: bool = !was_lsn_safe;
                was_lsn_safe = true;
                CyclePhase::Finished { end: CycleEnd::Synchronized { resumed } }
            }
        },
        (CyclePhase::Synchronize { slots, oldest, index, sync }, reply) => {
            let SlotSync { slot, phase } = synchronize_one_slot(sync, reply);
            match phase {
                SlotPhase::Finished { .. } => if index < slots.len() && index + 1 < slots.len() {
                    CyclePhase::ReadReceived { slots, oldest, index: index + 1 }
                } else {
                    let resumed: bool = !was_lsn_safe;
                    was_lsn_safe = true;
                    CyclePhase::Finished { end: CycleEnd::Synchronized { resumed } }
                },
                phase => CyclePhase::Synchronize {
                    slots,
                    oldest,
                    index,
                    sync: SlotSync { slot, phase },
                },
            }
        },
        (phase, _) => phase,
    };
    SyncCycle { settings, sleep_time, was_lsn_safe, phase }
}

} // verus!
