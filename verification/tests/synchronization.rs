//! Runs of the background worker against a simulated server.

use pg_failover_slots_rs::guc::Settings;
use pg_failover_slots_rs::remote::{format_lsn, RemoteSlot};
use pg_failover_slots_rs::server::{
    CatchupResult, CycleEnd, LocalSlot, Reply, Request, SlotOutcome, SlotPosition, StandbyStatus,
};
use pg_failover_slots_rs::slot_sync::{
    catchup_report_interval, copy_plugin_name, drop_extra_local_slots, find_local_slot,
    limit_positions, moves_backward, oldest_restart_lsn, reports_wait, synchronize_failover_slots,
    synchronize_one_slot, wait_for_primary_slot_catchup, CatchupPhase, CatchupWait, CyclePhase,
    SlotPhase, SlotSync, SyncCycle,
};
use pg_failover_slots_rs::worker::{copy_to_carray, pg_failover_slots_rs_main, Worker, WorkerPhase};
use pg_failover_slots_rs::WORKER_WAIT_FEEDBACK;

fn remote(name: &str, restart_lsn: u64, confirmed_lsn: u64, catalog_xmin: u32) -> RemoteSlot {
    RemoteSlot {
        name: name.to_string(),
        plugin: "pgoutput".to_string(),
        database: "db".to_string(),
        two_phase: false,
        catalog_xmin,
        restart_lsn,
        confirmed_lsn,
    }
}

fn local(name: &str, in_use: bool, active_pid: i32, database: u32) -> LocalSlot {
    LocalSlot {
        name: name.to_string(),
        in_use,
        active_pid,
        database,
        restart_lsn: 0,
        confirmed_flush: 0,
    }
}

fn place(slot: &RemoteSlot) -> String {
    format!(
        "{} at {} confirmed {} xmin {}",
        slot.name,
        format_lsn(slot.restart_lsn),
        format_lsn(slot.confirmed_lsn),
        slot.catalog_xmin
    )
}

/// A standby with its primary.
struct Server {
    in_recovery: bool,
    promoted_after: usize,
    wal_receiver_slot: Option<&'static str>,
    hot_standby_feedback: bool,
    filters: &'static str,
    drop_extra_slots: bool,
    nap_time: i32,
    connects: bool,
    remote: Vec<RemoteSlot>,
    /// The names of the primary's slots outside the filters.
    others: Vec<&'static str>,
    slot_query_fails: bool,
    name_query_fails: bool,
    /// What is found of the slot that is waited for, look by look.
    looks: Vec<Vec<RemoteSlot>>,
    own_lsn: u64,
    local: Vec<(&'static str, bool, i32, u32)>,
    wal_end: u64,
    received: u64,
    /// The position of an acquired slot, and what is reserved for a new one.
    position: SlotPosition,
    postmaster_dies: bool,
    reload: bool,
    log: Vec<String>,
}

impl Server {
    fn new() -> Server {
        Server {
            in_recovery: true,
            promoted_after: usize::MAX,
            wal_receiver_slot: Some("standby"),
            hot_standby_feedback: true,
            filters: "name_like:%",
            drop_extra_slots: false,
            nap_time: 60_000,
            connects: true,
            remote: vec![remote("s", 100, 150, 700)],
            others: vec![],
            slot_query_fails: false,
            name_query_fails: false,
            looks: vec![],
            own_lsn: 500,
            local: vec![("s", true, 0, 5)],
            wal_end: 1000,
            received: 1000,
            position: SlotPosition {
                restart_lsn: 90,
                catalog_xmin: 690,
            },
            postmaster_dies: false,
            reload: false,
            log: vec![],
        }
    }

    fn settings(&self) -> Settings {
        Settings {
            synchronize_slot_names: Some(self.filters.to_string()),
            drop_extra_slots: self.drop_extra_slots,
            worker_nap_time: self.nap_time,
            ..Settings::default()
        }
    }

    fn note(&mut self, text: String) -> Reply {
        self.log.push(text);
        Reply::Done
    }

    fn serve(&mut self, request: Request<'_>) -> Reply {
        match request {
            Request::CheckInterrupts => Reply::Done,
            Request::CheckRecovery => {
                let in_recovery = self.in_recovery && self.promoted_after > 0;
                self.promoted_after = self.promoted_after.saturating_sub(1);
                Reply::InRecovery(in_recovery)
            }
            Request::ReadSettings => Reply::Settings(self.settings()),
            Request::CheckReload => Reply::ReloadPending(self.reload),
            Request::ReloadConfig => {
                self.reload = false;
                self.note("reload".to_string())
            }
            Request::ReadStandbyStatus => Reply::StandbyStatus(StandbyStatus {
                wal_receiver_slot: self.wal_receiver_slot.map(|s| s.to_string()),
                hot_standby_feedback: self.hot_standby_feedback,
            }),
            Request::ConnectMaintenance { .. } => Reply::Connected(self.connects),
            Request::ConnectDatabase { database } => {
                self.log.push(format!("connect {database}"));
                Reply::Connected(self.connects)
            }
            Request::FetchConfiguredSlots { .. } => {
                Reply::RemoteSlots((!self.slot_query_fails).then_some(self.remote.clone()))
            }
            Request::FetchNamedSlot { name } => {
                self.log.push(format!("look {name}"));
                Reply::RemoteSlots(if self.looks.is_empty() {
                    None
                } else {
                    Some(self.looks.remove(0))
                })
            }
            Request::FetchSlotNames => {
                let mut names: Vec<String> = self.remote.iter().map(|s| s.name.clone()).collect();
                names.extend(self.others.iter().map(|n| n.to_string()));
                Reply::SlotNames((!self.name_query_fails).then_some(names))
            }
            Request::FetchSlotLsn { name } => {
                assert_eq!(Some(name.as_str()), self.wal_receiver_slot);
                Reply::SlotLsn(self.own_lsn)
            }
            Request::Disconnect => self.note("disconnect".to_string()),
            Request::ListLocalSlots => Reply::LocalSlots(
                self.local
                    .iter()
                    .map(|(n, u, p, d)| local(n, *u, *p, *d))
                    .collect(),
            ),
            Request::DropLocalSlot { name } => {
                self.local.retain(|(n, _, _, _)| n != name);
                self.note(format!("drop {name}"))
            }
            Request::ReadLatestWalEnd => Reply::LatestWalEnd(self.wal_end),
            Request::ReadReceivedLsn => Reply::ReceivedLsn(self.received),
            Request::BeginTransaction => self.note("begin".to_string()),
            Request::AcquireSlot { name } => {
                self.log.push(format!("acquire {name}"));
                Reply::Position(self.position)
            }
            Request::CreateSlot { slot } => {
                self.log.push(format!("create {}", slot.name));
                Reply::Position(self.position)
            }
            Request::AdvanceSlot { slot } => self.note(format!("advance {}", place(slot))),
            Request::SaveSlot => self.note("save".to_string()),
            Request::PersistSlot => self.note("persist".to_string()),
            Request::ReleaseSlot { outcome, .. } => self.note(format!("release {outcome:?}")),
            Request::CommitTransaction => self.note("commit".to_string()),
            Request::WaitForRetry { found, position } => {
                self.log.push(format!("behind {} {}", place(found), position.restart_lsn));
                Reply::Woken {
                    postmaster_died: self.postmaster_dies,
                }
            }
            Request::SleepUntilNextCycle { .. } => Reply::Woken {
                postmaster_died: self.postmaster_dies,
            },
            _ => panic!("not asked of a standby"),
        }
    }

    /// Serve a worker until it sleeps.
    fn run(&mut self, mut worker: Worker) -> Worker {
        loop {
            let reply = match worker.request() {
                Request::SleepUntilNextCycle { .. } | Request::Exit { .. } => return worker,
                request => self.serve(request),
            };
            worker = pg_failover_slots_rs_main(worker, reply);
        }
    }

    /// Run a first cycle and tell how it ended and how long the worker then sleeps.
    fn first_cycle(&mut self) -> (Option<CycleEnd>, i64) {
        let worker = self.run(Worker::start());
        match worker.request() {
            Request::SleepUntilNextCycle { ms, end, .. } => (end, ms),
            _ => panic!("the worker should sleep"),
        }
    }
}

#[test]
fn existing_slot_is_moved_forward() {
    let mut server = Server::new();
    assert_eq!(
        server.first_cycle(),
        (Some(CycleEnd::Synchronized { resumed: true }), 60_000)
    );
    assert_eq!(
        server.log,
        vec![
            "disconnect",
            "begin",
            "acquire s",
            "advance s at 0/64 confirmed 0/96 xmin 700",
            "save",
            "release Updated",
            "commit"
        ]
    );
}

#[test]
fn existing_slot_is_not_moved_backward() {
    for position in [
        SlotPosition {
            restart_lsn: 101,
            catalog_xmin: 690,
        },
        SlotPosition {
            restart_lsn: 90,
            catalog_xmin: 701,
        },
    ] {
        let mut server = Server::new();
        server.position = position;
        assert_eq!(
            server.first_cycle().0,
            Some(CycleEnd::Synchronized { resumed: true })
        );
        assert_eq!(
            server.log,
            vec!["disconnect", "begin", "acquire s", "release WouldMoveBackward", "commit"]
        );
    }
}

#[test]
fn new_slot_is_created_and_persisted() {
    let mut server = Server::new();
    server.local = vec![("s", false, 0, 5)];
    server.first_cycle();
    assert_eq!(
        server.log,
        vec![
            "disconnect",
            "begin",
            "create s",
            "advance s at 0/64 confirmed 0/96 xmin 700",
            "persist",
            "release Created",
            "commit"
        ]
    );
}

#[test]
fn new_slot_waits_for_the_primary() {
    let mut server = Server::new();
    server.local = vec![];
    server.position = SlotPosition {
        restart_lsn: 200,
        catalog_xmin: 710,
    };
    server.looks = vec![
        vec![remote("s", 150, 160, 720)],
        vec![remote("s", 210, 220, 705)],
        vec![remote("s", 210, 5000, 710)],
    ];
    server.first_cycle();
    assert_eq!(
        server.log,
        vec![
            "disconnect",
            "begin",
            "create s",
            "connect db",
            "look s",
            "behind s at 0/96 confirmed 0/A0 xmin 720 200",
            "look s",
            "behind s at 0/D2 confirmed 0/DC xmin 705 200",
            "look s",
            "disconnect",
            "advance s at 0/D2 confirmed 0/3E8 xmin 710",
            "persist",
            "release Created",
            "commit"
        ]
    );
}

#[test]
fn new_slot_is_given_up_when_the_primary_loses_it() {
    let mut server = Server::new();
    server.local = vec![];
    server.position.restart_lsn = 200;
    server.looks = vec![vec![]];
    assert_eq!(
        server.first_cycle().0,
        Some(CycleEnd::Synchronized { resumed: true })
    );
    assert_eq!(
        server.log[3..],
        ["connect db", "look s", "disconnect", "release NotCaughtUp", "commit"]
    );
}

#[test]
fn wait_for_the_primary_ends_with_promotion() {
    let mut server = Server::new();
    server.local = vec![];
    server.position.restart_lsn = 200;
    // One check by the worker and one for the slot come first.
    server.promoted_after = 2;
    server.first_cycle();
    assert_eq!(
        server.log[3..],
        ["connect db", "disconnect", "release NotCaughtUp", "commit"]
    );
}

#[test]
fn slot_is_left_alone_outside_recovery() {
    let mut server = Server::new();
    server.promoted_after = 1;
    server.first_cycle();
    assert_eq!(server.log, vec!["disconnect"]);
}

#[test]
fn wait_for_the_primary_needs_a_connection() {
    let wait = CatchupWait::start(
        remote("s", 100, 150, 700),
        SlotPosition {
            restart_lsn: 200,
            catalog_xmin: 690,
        },
    );
    let wait = wait_for_primary_slot_catchup(wait, Reply::Connected(false));
    assert!(matches!(
        wait.phase,
        CatchupPhase::Finished {
            result: CatchupResult::CannotConnect
        }
    ));
    assert!(matches!(wait.request(), Request::Nothing));
}

#[test]
fn process_exits_with_the_postmaster() {
    let mut server = Server::new();
    server.local = vec![];
    server.position.restart_lsn = 200;
    server.looks = vec![vec![remote("s", 100, 150, 700)]];
    server.postmaster_dies = true;
    let worker = server.run(Worker::start());
    assert!(matches!(
        worker.request(),
        Request::Exit {
            code: 1,
            timed_out: false
        }
    ));
}

#[test]
fn worker_exits_with_the_postmaster() {
    let mut server = Server::new();
    let worker = server.run(Worker::start());
    let worker = pg_failover_slots_rs_main(
        worker,
        Reply::Woken {
            postmaster_died: true,
        },
    );
    assert!(matches!(
        worker.request(),
        Request::Exit {
            code: 1,
            timed_out: false
        }
    ));
}

#[test]
fn positions_are_limited_to_the_oldest_and_to_what_was_received() {
    let mut server = Server::new();
    server.received = 140;
    server.remote = vec![
        remote("a", 130, 150, 700),
        remote("b", 120, 135, 700),
        remote("c", 125, 900, 700),
    ];
    server.local = vec![("a", true, 0, 5), ("b", true, 0, 5), ("c", true, 0, 5)];
    server.first_cycle();
    let moves: Vec<&String> = server
        .log
        .iter()
        .filter(|l| l.starts_with("advance"))
        .collect();
    assert_eq!(
        moves,
        vec![
            "advance a at 0/78 confirmed 0/8C xmin 700",
            "advance b at 0/78 confirmed 0/87 xmin 700",
            "advance c at 0/78 confirmed 0/8C xmin 700"
        ]
    );
}

#[test]
fn cycle_is_skipped_without_wal_receiver_or_filters() {
    let mut server = Server::new();
    server.wal_receiver_slot = None;
    assert_eq!(server.first_cycle(), (Some(CycleEnd::Skipped), 60_000));
    let mut server = Server::new();
    server.filters = " , ";
    assert_eq!(server.first_cycle(), (Some(CycleEnd::Skipped), 60_000));
    assert!(server.log.is_empty());
}

#[test]
fn cycle_needs_feedback_a_slot_name_and_a_connection() {
    let mut server = Server::new();
    server.hot_standby_feedback = false;
    assert_eq!(server.first_cycle(), (Some(CycleEnd::FeedbackOff), 60_000));
    let mut server = Server::new();
    server.wal_receiver_slot = Some("");
    assert_eq!(
        server.first_cycle(),
        (Some(CycleEnd::NoPrimarySlotName), 60_000)
    );
    let mut server = Server::new();
    server.connects = false;
    assert_eq!(server.first_cycle(), (Some(CycleEnd::CannotConnect), 60_000));
}

#[test]
fn cycle_without_slots_ends_early() {
    let mut server = Server::new();
    server.remote = vec![];
    server.own_lsn = 0;
    assert_eq!(server.first_cycle(), (Some(CycleEnd::NothingToDo), 60_000));
}

#[test]
fn cycle_waits_for_feedback() {
    let mut server = Server::new();
    server.own_lsn = 0;
    assert_eq!(
        server.first_cycle(),
        (Some(CycleEnd::FeedbackNotSent), WORKER_WAIT_FEEDBACK)
    );
    let mut server = Server::new();
    server.wal_end = 0;
    server.nap_time = 2_000;
    assert_eq!(server.first_cycle(), (Some(CycleEnd::FeedbackNotSent), 2_000));
}

#[test]
fn cycle_waits_until_the_standby_has_the_position() {
    let mut server = Server::new();
    server.wal_end = 99;
    assert_eq!(
        server.first_cycle(),
        (
            Some(CycleEnd::AheadOfStandby {
                oldest: 100,
                wal_end: 99
            }),
            10_000
        )
    );
    assert_eq!(server.log, vec!["disconnect"]);
    server.wal_end = 100;
    assert_eq!(
        server.first_cycle().0,
        Some(CycleEnd::Synchronized { resumed: true })
    );
}

#[test]
fn synchronization_is_resumed_once() {
    let mut server = Server::new();
    let mut worker = Worker::start();
    let mut ends = vec![];
    for wal_end in [1000, 1000, 0, 1000, 1000] {
        server.wal_end = wal_end;
        worker = server.run(worker);
        if let Request::SleepUntilNextCycle { end, .. } = worker.request() {
            ends.push(end.expect("a cycle ran"));
        }
        let reply = server.serve(worker.request());
        worker = pg_failover_slots_rs_main(worker, reply);
    }
    assert_eq!(
        ends,
        vec![
            CycleEnd::Synchronized { resumed: true },
            CycleEnd::Synchronized { resumed: false },
            CycleEnd::FeedbackNotSent,
            CycleEnd::Synchronized { resumed: true },
            CycleEnd::Synchronized { resumed: false },
        ]
    );
}

#[test]
fn extra_logical_slots_are_dropped() {
    let mut server = Server::new();
    server.drop_extra_slots = true;
    server.local = vec![
        ("free", false, 0, 5),
        ("physical", true, 0, 0),
        ("busy", true, 42, 5),
        ("old1", true, 0, 5),
        ("s", true, 0, 5),
        ("old2", true, 0, 6),
    ];
    server.first_cycle();
    assert_eq!(
        server.log[..4],
        ["disconnect", "drop old1", "drop old2", "begin"]
    );
    let names: Vec<&str> = server.local.iter().map(|s| s.0).collect();
    assert_eq!(names, vec!["free", "physical", "busy", "s"]);
}

#[test]
fn extra_logical_slots_are_kept_if_so_configured() {
    let mut server = Server::new();
    server.local.push(("old", true, 0, 5));
    server.first_cycle();
    assert!(!server.log.iter().any(|l| l.starts_with("drop")));
}

#[test]
fn all_extra_slots_go_when_the_primary_has_none() {
    let mut server = Server::new();
    server.drop_extra_slots = true;
    server.remote = vec![];
    assert_eq!(server.first_cycle().0, Some(CycleEnd::NothingToDo));
    assert_eq!(server.log, vec!["disconnect", "drop s"]);
}

#[test]
fn failed_query_drops_nothing() {
    let mut server = Server::new();
    server.drop_extra_slots = true;
    server.slot_query_fails = true;
    server.local.push(("old", true, 0, 5));
    assert_eq!(server.first_cycle(), (Some(CycleEnd::FetchFailed), 60_000));
    assert_eq!(server.log, vec!["disconnect"]);
    assert_eq!(server.local.len(), 2);
}

#[test]
fn failed_query_for_names_drops_nothing() {
    let mut server = Server::new();
    server.drop_extra_slots = true;
    server.name_query_fails = true;
    server.local.push(("old", true, 0, 5));
    assert_eq!(
        server.first_cycle().0,
        Some(CycleEnd::Synchronized { resumed: true })
    );
    assert!(!server.log.iter().any(|l| l.starts_with("drop")));
    assert!(server.log.iter().any(|l| l.starts_with("advance s")));
}

#[test]
fn slot_outside_the_filter_is_kept() {
    let mut server = Server::new();
    server.drop_extra_slots = true;
    server.filters = "name:s";
    server.others = vec!["b"];
    server.local = vec![("s", true, 0, 5), ("b", true, 0, 5), ("gone", true, 0, 5)];
    server.first_cycle();
    let names: Vec<&str> = server.local.iter().map(|s| s.0).collect();
    assert_eq!(names, vec!["s", "b"]);
    assert_eq!(server.log[..3], ["disconnect", "drop gone", "begin"]);
}

#[test]
fn new_slot_is_given_up_when_the_query_for_it_fails() {
    let mut server = Server::new();
    server.local = vec![];
    server.position.restart_lsn = 200;
    server.first_cycle();
    assert_eq!(
        server.log[3..],
        ["connect db", "look s", "disconnect", "release NotCaughtUp", "commit"]
    );
    let wait = CatchupWait::start(remote("s", 1, 1, 3), server.position);
    let wait = wait_for_primary_slot_catchup(wait, Reply::Connected(true));
    let wait = wait_for_primary_slot_catchup(wait, Reply::Done);
    let wait = wait_for_primary_slot_catchup(wait, Reply::InRecovery(true));
    let wait = wait_for_primary_slot_catchup(wait, Reply::RemoteSlots(None));
    assert!(matches!(
        wait.phase,
        CatchupPhase::Disconnect {
            result: CatchupResult::FetchFailed
        }
    ));
}

#[test]
fn skipped_cycles_are_logged_once() {
    let mut server = Server::new();
    let mut worker = Worker::start();
    let mut reports = vec![];
    for slot in [None, None, Some("standby"), None] {
        server.wal_receiver_slot = slot;
        worker = server.run(worker);
        if let Request::SleepUntilNextCycle { report, .. } = worker.request() {
            reports.push(report);
        }
        let reply = server.serve(worker.request());
        worker = pg_failover_slots_rs_main(worker, reply);
    }
    assert_eq!(reports, vec![true, false, true, false]);
}

#[test]
fn worker_sleeps_ten_times_as_long_outside_recovery() {
    let mut server = Server::new();
    server.in_recovery = false;
    assert_eq!(server.first_cycle(), (None, 600_000));
    server.nap_time = i32::MAX;
    assert_eq!(server.first_cycle(), (None, 21_474_836_470));
    assert!(server.log.is_empty());
}

#[test]
fn configuration_is_read_again_after_sleep() {
    let mut server = Server::new();
    server.in_recovery = false;
    server.reload = true;
    let mut worker = server.run(Worker::start());
    let reply = server.serve(worker.request());
    worker = pg_failover_slots_rs_main(worker, reply);
    worker = server.run(worker);
    assert_eq!(server.log, vec!["reload"]);
    assert!(matches!(worker.phase, WorkerPhase::Sleep { .. }));
}

#[test]
fn reply_that_answers_nothing_changes_nothing() {
    let worker = pg_failover_slots_rs_main(Worker::start(), Reply::InRecovery(true));
    assert!(matches!(worker.phase, WorkerPhase::CheckInterrupts));
    let sync = synchronize_one_slot(SlotSync::start(remote("s", 1, 1, 3)), Reply::Done);
    assert!(matches!(sync.phase, SlotPhase::CheckRecovery));
    let status = StandbyStatus {
        wal_receiver_slot: Some("standby".to_string()),
        hot_standby_feedback: true,
    };
    let cycle = SyncCycle::start(Settings::default(), status, 1_000, false);
    let cycle = synchronize_failover_slots(cycle, Reply::Done);
    assert!(matches!(cycle.phase, CyclePhase::Connect { .. }));
    assert_eq!(cycle.suggested_sleep(CycleEnd::FeedbackNotSent), 1_000);
}

#[test]
fn outcome_is_told_on_release() {
    let mut sync = SlotSync::start(remote("s", 1, 1, 3));
    let replies = [
        Reply::InRecovery(true),
        Reply::Done,
        Reply::LocalSlots(vec![local("s", true, 0, 1)]),
        Reply::Position(SlotPosition {
            restart_lsn: 1,
            catalog_xmin: 3,
        }),
        Reply::Done,
        Reply::Done,
    ];
    for reply in replies {
        sync = synchronize_one_slot(sync, reply);
    }
    assert!(matches!(
        sync.request(),
        Request::ReleaseSlot {
            outcome: SlotOutcome::Updated,
            ..
        }
    ));
}

#[test]
fn local_slots_are_found_by_name_while_in_use() {
    let slots = vec![local("a", false, 0, 5), local("b", true, 7, 0)];
    assert!(!find_local_slot(&slots, &"a".to_string()));
    assert!(find_local_slot(&slots, &"b".to_string()));
    assert!(!find_local_slot(&slots, &"c".to_string()));
}

#[test]
fn next_extra_slot_is_the_first() {
    let slots = vec![local("a", true, 0, 5), local("b", true, 0, 5), local("c", true, 0, 5)];
    let on_primary = vec!["a".to_string()];
    assert_eq!(
        drop_extra_local_slots(&slots, &on_primary),
        Some("b".to_string())
    );
    assert_eq!(drop_extra_local_slots(&vec![], &on_primary), None);
}

#[test]
fn slot_has_reached_a_position_or_is_behind_it() {
    let position = SlotPosition {
        restart_lsn: 10,
        catalog_xmin: 100,
    };
    assert!(!moves_backward(&remote("s", 10, 0, 100), position));
    assert!(!moves_backward(&remote("s", 11, 0, 101), position));
    assert!(moves_backward(&remote("s", 9, 0, 101), position));
    assert!(moves_backward(&remote("s", 11, 0, 99), position));
    // An unknown xmin precedes every normal one.
    assert!(moves_backward(&remote("s", 11, 0, 0), position));
}

#[test]
fn positions_are_moved_back_to_their_limits() {
    let mut slot = remote("s", 10, 20, 3);
    limit_positions(&mut slot, 15, 15);
    assert_eq!((slot.restart_lsn, slot.confirmed_lsn), (10, 15));
    limit_positions(&mut slot, 5, 30);
    assert_eq!((slot.restart_lsn, slot.confirmed_lsn), (5, 15));
}

#[test]
fn oldest_position_of_slots() {
    let slots = vec![remote("a", 30, 0, 3), remote("b", 10, 0, 3), remote("c", 20, 0, 3)];
    assert_eq!(oldest_restart_lsn(&slots), 10);
    assert_eq!(oldest_restart_lsn(&vec![]), 0);
}

#[test]
fn long_waits_are_reported() {
    assert_eq!(catchup_report_interval(5_000), 25_000);
    assert_eq!(catchup_report_interval(6_000), 30_000);
    assert_eq!(catchup_report_interval(i32::MAX), 30_000);
    assert_eq!(catchup_report_interval(1), 5);
    assert!(!reports_wait(0, i64::MAX, 1));
    assert!(!reports_wait(1_000, 5_999, 1));
    assert!(reports_wait(1_000, 6_000, 1));
    assert!(!reports_wait(i64::MAX, i64::MIN, 1));
    assert!(reports_wait(1, 30_000_001, i32::MAX));
}

#[test]
fn text_is_cut_off_before_the_terminating_nul() {
    let mut dest = [9u8; 6];
    copy_to_carray(&mut dest, "abc");
    assert_eq!(dest, [b'a', b'b', b'c', 0, 9, 9]);
    copy_to_carray(&mut dest, "abcde");
    assert_eq!(&dest, b"abcde\0");
    copy_to_carray(&mut dest, "fghijkl");
    assert_eq!(&dest, b"fghij\0");
    copy_to_carray(&mut dest, "");
    assert_eq!(&dest, b"\0ghij\0");
    let mut one = [9u8; 1];
    copy_to_carray(&mut one, "abc");
    assert_eq!(one, [0]);
}

#[test]
fn plugin_name_is_cut_off_at_its_size() {
    let mut dest = [9u8; 64];
    copy_plugin_name(&mut dest, "pgoutput");
    assert_eq!(&dest[..10], b"pgoutput\0\x09");
    copy_plugin_name(&mut dest, &"x".repeat(63));
    assert_eq!(dest[62], b'x');
    assert_eq!(dest[63], 0);
    copy_plugin_name(&mut dest, &"y".repeat(70));
    assert_eq!(dest, [b'y'; 64]);
}
