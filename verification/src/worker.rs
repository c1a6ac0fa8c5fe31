//! The background worker: a synchronization cycle on a standby, then sleep.

use crate::guc::{get_worker_nap_time, Settings};
use crate::pg_compat::{copy_bytes, overwritten};
use crate::server::{CycleEnd, Reply, Request};
use crate::slot_sync::{synchronize_failover_slots, CyclePhase, SyncCycle};
use vstd::prelude::*;
use vstd::string::StringSliceAdditionalSpecFns;

verus! {

// ---------------------------------------------------------------------------
// Names in fixed-size arrays
// ---------------------------------------------------------------------------

/// Copy a text into a fixed-size character array, as much of it as fits before the terminating
/// NUL.
pub fn copy_to_carray(dest: &mut [u8], src: &str)
    requires
        old(dest)@.len() > 0,
    ensures
        ({
            let bytes = src.spec_bytes();
            let len = if bytes.len() < old(dest)@.len() - 1 {
                bytes.len() as int
            } else {
                old(dest)@.len() - 1
            };
            final(dest)@ == overwritten(old(dest)@, bytes.take(len).push(0))
        }),
{
    let ghost before = dest@;
    let bytes: &[u8] = src.as_bytes();
    let len: usize = if bytes.len() < dest.len() - 1 {
        bytes.len()
    } else {
        dest.len() - 1
    };
    copy_bytes(dest, bytes, len);
    dest[len] = 0;
    assert(dest@ =~= overwritten(before, bytes@.take(len as int).push(0)));
}

// ---------------------------------------------------------------------------
// Main loop
// ---------------------------------------------------------------------------

/// Where a [`Worker`] stands.
pub enum WorkerPhase {
    CheckInterrupts,
    ReadSettings,
    CheckRecovery { settings: Settings },
    ReadStatus { settings: Settings },
    /// A synchronization cycle is running.
    Cycle { cycle: SyncCycle },
    /// `end` is how the cycle ended, if there was one. It is to be logged with `report`.
    Sleep { ms: i64, end: Option<CycleEnd>, report: bool },
    CheckReload,
    Reload,
    /// The postmaster is gone.
    Exit,
}

/// The background worker.
pub struct Worker {
    /// The last cycle found the positions of the slots safe.
    pub was_lsn_safe: bool,
    /// A cycle was skipped before: that is logged once.
    pub skipped: bool,
    pub phase: WorkerPhase,
}

impl Worker {
    /// A worker that starts.
    pub open spec fn starting() -> Worker {
        Worker { was_lsn_safe: false, skipped: false, phase: WorkerPhase::CheckInterrupts }
    }

    /// A worker that starts.
    pub fn start() -> (worker: Worker)
        ensures
            worker == Worker::starting(),
    {
        Worker { was_lsn_safe: false, skipped: false, phase: WorkerPhase::CheckInterrupts }
    }

    /// What the worker needs next.
    pub open spec fn pending(&self) -> Request<'_> {
        match self.phase {
            WorkerPhase::CheckInterrupts => Request::CheckInterrupts,
            WorkerPhase::ReadSettings => Request::ReadSettings,
            WorkerPhase::CheckRecovery { .. } => Request::CheckRecovery,
            WorkerPhase::ReadStatus { .. } => Request::ReadStandbyStatus,
            WorkerPhase::Cycle { cycle } => cycle.pending(),
            WorkerPhase::Sleep { ms, end, report } => Request::SleepUntilNextCycle {
                ms,
                end,
                report,
            },
            WorkerPhase::CheckReload => Request::CheckReload,
            WorkerPhase::Reload => Request::ReloadConfig,
            WorkerPhase::Exit => Request::Exit { code: 1, timed_out: false },
        }
    }

    /// What the worker needs next.
    pub fn request(&self) -> (request: Request<'_>)
        ensures
            request == self.pending(),
    {
        match &self.phase {
            WorkerPhase::CheckInterrupts => Request::CheckInterrupts,
            WorkerPhase::ReadSettings => Request::ReadSettings,
            WorkerPhase::CheckRecovery { .. } => Request::CheckRecovery,
            WorkerPhase::ReadStatus { .. } => Request::ReadStandbyStatus,
            WorkerPhase::Cycle { cycle } => cycle.request(),
            WorkerPhase::Sleep { ms, end, report } => Request::SleepUntilNextCycle {
                ms: *ms,
                end: *end,
                report: *report,
            },
            WorkerPhase::CheckReload => Request::CheckReload,
            WorkerPhase::Reload => Request::ReloadConfig,
            WorkerPhase::Exit => Request::Exit { code: 1, timed_out: false },
        }
    }

    /// The worker after its cycle went on: asleep once it has ended. How it ended is logged,
    /// but of the cycles that are skipped only the first.
    pub open spec fn running(self, cycle: SyncCycle) -> Worker {
        match cycle.phase {
            CyclePhase::Finished { end } => Worker {
                was_lsn_safe: cycle.was_lsn_safe,
                skipped: self.skipped || end is Skipped,
                phase: WorkerPhase::Sleep {
                    ms: cycle.sleep_after(end),
                    end: Some(end),
                    report: !(self.skipped && end is Skipped),
                },
            },
            _ => Worker { phase: WorkerPhase::Cycle { cycle }, ..self },
        }
    }

    /// The worker after a reply. A reply that does not answer what is pending changes nothing.
    ///
    /// Outside recovery there is nothing to synchronize, and the worker sleeps ten times as
    /// long.
    pub open spec fn next(self, reply: Reply) -> Worker {
        match (self.phase, reply) {
            (WorkerPhase::CheckInterrupts, Reply::Done) => Worker {
                phase: WorkerPhase::ReadSettings,
                ..self
            },
            (WorkerPhase::ReadSettings, Reply::Settings(settings)) => Worker {
                phase: WorkerPhase::CheckRecovery { settings },
                ..self
            },
            (WorkerPhase::CheckRecovery { settings }, Reply::InRecovery(in_recovery)) => Worker {
                phase: if in_recovery {
                    WorkerPhase::ReadStatus { settings }
                } else {
                    WorkerPhase::Sleep {
                        ms: (settings.worker_nap_time * 10) as i64,
                        end: None,
                        report: false,
                    }
                },
                ..self
            },
            (WorkerPhase::ReadStatus { settings }, Reply::StandbyStatus(status)) => self.running(
                SyncCycle::starting(
                    settings,
                    status,
                    settings.worker_nap_time as i64,
                    self.was_lsn_safe,
                ),
            ),
            (WorkerPhase::Cycle { cycle }, reply) => self.running(cycle.next(reply)),
            (WorkerPhase::Sleep { .. }, Reply::Woken { postmaster_died }) => Worker {
                phase: if postmaster_died {
                    WorkerPhase::Exit
                } else {
                    WorkerPhase::CheckReload
                },
                ..self
            },
            (WorkerPhase::CheckReload, Reply::ReloadPending(pending)) => Worker {
                phase: if pending {
                    WorkerPhase::Reload
                } else {
                    WorkerPhase::CheckInterrupts
                },
                ..self
            },
            (WorkerPhase::Reload, Reply::Done) => Worker {
                phase: WorkerPhase::CheckInterrupts,
                ..self
            },
            _ => self,
        }
    }
}

/// A worker whose cycle went on.
fn continue_cycle(was_lsn_safe: bool, skipped: bool, cycle: SyncCycle) -> (worker: Worker)
    ensures
        forall|phase: WorkerPhase|
            worker == #[trigger] (Worker { was_lsn_safe, skipped, phase }).running(cycle),
{
    match &cycle.phase {
        CyclePhase::Finished { end } => {
            let end: CycleEnd = *end;
            let ms: i64 = cycle.suggested_sleep(end);
            let is_skipped: bool = match end {
                CycleEnd::Skipped => true,
                _ => false,
            };
            Worker {
                was_lsn_safe: cycle.was_lsn_safe,
                skipped: skipped || is_skipped,
                phase: WorkerPhase::Sleep {
                    ms,
                    end: Some(end),
                    report: !(skipped && is_skipped),
                },
            }
        },
        _ => Worker { was_lsn_safe, skipped, phase: WorkerPhase::Cycle { cycle } },
    }
}

/// Go on with the background worker.
pub fn pg_failover_slots_rs_main(worker: Worker, reply: Reply) -> (after: Worker)
    ensures
        after == worker.next(reply),
{
    let Worker { was_lsn_safe, skipped, phase } = worker;
    let phase: WorkerPhase = match (phase, reply) {
        (WorkerPhase::CheckInterrupts, Reply::Done) => WorkerPhase::ReadSettings,
        (WorkerPhase::ReadSettings, Reply::Settings(settings)) => WorkerPhase::CheckRecovery {
            settings,
        },
        (WorkerPhase::CheckRecovery { settings }, Reply::InRecovery(in_recovery)) => {
            if in_recovery {
                WorkerPhase::ReadStatus { settings }
            } else {
                let nap_time: i64 = get_worker_nap_time(&settings) as i64;
                WorkerPhase::Sleep { ms: nap_time * 10, end: None, report: false }
            }
        },
        (WorkerPhase::ReadStatus { settings }, Reply::StandbyStatus(status)) => {
            let nap_time: i64 = get_worker_nap_time(&settings) as i64;
            let cycle: SyncCycle = SyncCycle::start(settings, status, nap_time, was_lsn_safe);
            return continue_cycle(was_lsn_safe, skipped, cycle);
        },
        (WorkerPhase::Cycle { cycle }, reply) => {
            return continue_cycle(
                was_lsn_safe,
                skipped,
                synchronize_failover_slots(cycle, reply),
            );
        },
        (WorkerPhase::Sleep { .. }, Reply::Woken { postmaster_died }) => if postmaster_died {
            WorkerPhase::Exit
        } else {
            WorkerPhase::CheckReload
        },
        (WorkerPhase::CheckReload, Reply::ReloadPending(pending)) => if pending {
            WorkerPhase::Reload
        } else {
            WorkerPhase::CheckInterrupts
        },
        (WorkerPhase::Reload, Reply::Done) => WorkerPhase::CheckInterrupts,
        (phase, _) => phase,
    };
    Worker { was_lsn_safe, skipped, phase }
}

} // verus!
