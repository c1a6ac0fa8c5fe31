//! Runs of the wait before log data is sent to a subscriber.

use pg_failover_slots_rs::guc::Settings;
use pg_failover_slots_rs::server::{LocalSlot, Reply, Request};
use pg_failover_slots_rs::standby_wait::{
    shim_putmessage_noblock, skip_standby_slot_names, tally_confirmations, timed_out,
    wait_for_standby_confirmation, wal_data_lsn, ConfirmationPhase, ConfirmationWait, KnownFlush,
    Outgoing, WaitEnd, CONFIRMATION_POLL_MS,
};

fn physical(name: &str, restart_lsn: u64) -> LocalSlot {
    LocalSlot {
        name: name.to_string(),
        in_use: true,
        active_pid: 1,
        database: 0,
        restart_lsn,
        confirmed_flush: 0,
    }
}

fn settings(names: &str, min_confirmed: i32) -> Settings {
    Settings {
        standby_slot_names: Some(names.to_string()),
        standby_slots_min_confirmed: min_confirmed,
        ..Settings::default()
    }
}

fn known(lsn: u64, slots: Vec<LocalSlot>) -> KnownFlush {
    KnownFlush { lsn, slots }
}

fn hold(lsn: u64, known: KnownFlush) -> ConfirmationWait {
    match shim_putmessage_noblock(b'd', &wal_message(lsn), known) {
        Outgoing::Hold(wait) => wait,
        Outgoing::Send(_) => panic!("log data is held back"),
    }
}

fn wal_message(lsn: u64) -> Vec<u8> {
    let mut payload = vec![b'w'];
    payload.extend(lsn.to_be_bytes());
    payload.extend([0; 16]);
    payload
}

/// A wait for position 100 that looks at the slots next.
fn scanning(names: &str, min_confirmed: i32) -> ConfirmationWait {
    let mut wait = ConfirmationWait::start(100, KnownFlush::nothing());
    for reply in [
        Reply::Settings(settings(names, min_confirmed)),
        Reply::OwnSlot(None),
        Reply::Time(1_000_000),
        Reply::Settings(settings(names, min_confirmed)),
    ] {
        wait = wait_for_standby_confirmation(wait, reply);
    }
    wait
}

fn scan(wait: ConfirmationWait, slots: Vec<LocalSlot>) -> ConfirmationWait {
    assert!(matches!(wait.request(), Request::ListLocalSlots));
    wait_for_standby_confirmation(wait, Reply::LocalSlots(slots))
}

fn is_confirmed(wait: &ConfirmationWait) -> bool {
    matches!(
        wait.phase,
        ConfirmationPhase::Finished {
            end: WaitEnd::Confirmed
        }
    )
}

#[test]
fn log_data_is_recognised() {
    let payload = wal_message(0x0102_0304_0506_0708);
    assert_eq!(wal_data_lsn(b'd', &payload), Some(0x0102_0304_0506_0708));
    assert_eq!(wal_data_lsn(b'd', &wal_message(u64::MAX)), Some(u64::MAX));
    assert_eq!(wal_data_lsn(b'd', &payload[..17]), Some(0x0102_0304_0506_0708));
    assert_eq!(wal_data_lsn(b'd', &payload[..16]), None);
    assert_eq!(wal_data_lsn(b'd', &[]), None);
    assert_eq!(wal_data_lsn(b'c', &payload), None);
    let mut keepalive = payload.clone();
    keepalive[0] = b'k';
    assert_eq!(wal_data_lsn(b'd', &keepalive), None);
}

#[test]
fn only_log_data_is_held_back() {
    let wait = hold(77, known(50, vec![physical("a", 60)]));
    assert_eq!((wait.commit_lsn, wait.known.lsn), (77, 50));
    assert_eq!(wait.known.slots[0].restart_lsn, 60);
    assert!(matches!(wait.request(), Request::ReadSettings));
    let outgoing = shim_putmessage_noblock(b'd', b"k-not-log-data-at-all", wait.known);
    assert!(matches!(outgoing, Outgoing::Send(known) if known.lsn == 50));
}

#[test]
fn wait_is_skipped_where_there_is_no_need() {
    let own = |name: &str| Some(name.to_string());
    let two = settings("a, b", -1);
    let low = known(99, vec![physical("a", 99), physical("b", 120)]);
    let high = known(100, vec![physical("a", 100), physical("b", 120)]);
    assert!(!skip_standby_slot_names(&two, &None, &low, 100));
    assert!(!skip_standby_slot_names(&two, &own("c"), &low, 100));
    assert!(skip_standby_slot_names(&two, &own("b"), &low, 100));
    assert!(skip_standby_slot_names(&two, &None, &high, 100));
    assert!(!skip_standby_slot_names(&two, &None, &high, 101));
    assert!(skip_standby_slot_names(&settings("a, b", 0), &None, &low, 100));
    assert!(skip_standby_slot_names(&settings(" , ", -1), &None, &low, 100));
    assert!(skip_standby_slot_names(&Settings::default(), &None, &low, 100));
    // The known position decides, even if enough slots were seen further.
    assert!(!skip_standby_slot_names(&settings("a, b", 1), &None, &low, 100));
    // A message without a position has nothing to confirm.
    assert!(skip_standby_slot_names(&two, &None, &KnownFlush::nothing(), 0));
    assert!(!skip_standby_slot_names(&two, &None, &KnownFlush::nothing(), 1));
}

#[test]
fn known_position_holds_for_the_slots_that_were_seen() {
    let both = known(0x100, vec![physical("a", 0x100), physical("b", 0x180)]);
    // The order of the list does not matter, nor that a slot is left out or named twice.
    for names in ["a, b", "b, a", "a", "b", "b, b"] {
        assert!(skip_standby_slot_names(&settings(names, -1), &None, &both, 0x80));
        assert!(both.covers(&settings(names, -1), 0x100));
    }
    // Another slot is named.
    assert!(!skip_standby_slot_names(&settings("a, b, c", -1), &None, &both, 0x80));
    assert!(!skip_standby_slot_names(&settings("c", 1), &None, &both, 0x80));
    assert!(skip_standby_slot_names(&settings("a, b, c", 2), &None, &both, 0x80));

    // More confirmations are asked for than were seen.
    let one = known(0x100, vec![physical("a", 0x100)]);
    assert!(skip_standby_slot_names(&settings("a, b", 1), &None, &one, 0x80));
    assert!(!skip_standby_slot_names(&settings("a, b", 2), &None, &one, 0x80));
    assert!(!skip_standby_slot_names(&settings("a, b", -1), &None, &one, 0x80));

    // A slot that was not named at the time was seen, too.
    let behind = known(0x100, vec![physical("a", 0x100), physical("b", 0x10)]);
    assert!(!skip_standby_slot_names(&settings("b", -1), &None, &behind, 0x80));
    assert!(skip_standby_slot_names(&settings("b", -1), &None, &behind, 0x10));
}

#[test]
fn reordered_list_is_not_waited_for() {
    let wait = scan(scanning("a, b", -1), vec![physical("a", 0x100), physical("b", 0x100)]);
    assert!(is_confirmed(&wait));
    let mut next = hold(0x80, wait.known);
    for reply in [Reply::Settings(settings("b, a", -1)), Reply::OwnSlot(None)] {
        next = wait_for_standby_confirmation(next, reply);
    }
    assert!(matches!(
        next.phase,
        ConfirmationPhase::Finished {
            end: WaitEnd::Skipped
        }
    ));
}

#[test]
fn changed_list_is_waited_for() {
    let wait = scan(scanning("a", -1), vec![physical("a", 0x100), physical("b", 0x10)]);
    assert!(is_confirmed(&wait));
    assert_eq!(wait.known.lsn, 0x100);
    let mut next = hold(0x80, wait.known);
    for reply in [
        Reply::Settings(settings("b", -1)),
        Reply::OwnSlot(None),
        Reply::Time(0),
        Reply::Settings(settings("b", -1)),
        Reply::LocalSlots(vec![physical("a", 0x100), physical("b", 0x10)]),
    ] {
        next = wait_for_standby_confirmation(next, reply);
    }
    assert!(matches!(next.phase, ConfirmationPhase::Sleep));
    let mut next = next;
    for reply in [
        Reply::Woken {
            postmaster_died: false,
        },
        Reply::Done,
        Reply::Timeout { limit: 0, now: 0 },
        Reply::ReloadPending(false),
        Reply::Settings(settings("b", -1)),
        Reply::LocalSlots(vec![physical("a", 0x100), physical("b", 0x90)]),
    ] {
        next = wait_for_standby_confirmation(next, reply);
    }
    assert!(is_confirmed(&next));
    assert_eq!(next.known.lsn, 0x100);
    assert_eq!(next.known.slots[1].restart_lsn, 0x90);
    // Back to the first list, what was known of it still is.
    assert!(skip_standby_slot_names(&settings("a", -1), &None, &next.known, 0x100));
    assert!(!skip_standby_slot_names(&settings("b", -1), &None, &next.known, 0x100));
}

#[test]
fn own_slot_does_not_wait() {
    let wait = ConfirmationWait::start(100, KnownFlush::nothing());
    let wait = wait_for_standby_confirmation(wait, Reply::Settings(settings("a", -1)));
    let wait = wait_for_standby_confirmation(wait, Reply::OwnSlot(Some("a".to_string())));
    assert!(matches!(
        wait.phase,
        ConfirmationPhase::Finished {
            end: WaitEnd::Skipped
        }
    ));
    assert!(matches!(wait.request(), Request::Nothing));
}

#[test]
fn all_named_slots_must_confirm() {
    let wait = scan(scanning("a, b", -1), vec![physical("a", 100), physical("b", 99)]);
    assert!(matches!(
        wait.request(),
        Request::WaitForConfirmation {
            ms: CONFIRMATION_POLL_MS
        }
    ));
    let wait = scan(scanning("a, b", -1), vec![physical("a", 120), physical("b", 110)]);
    assert!(is_confirmed(&wait));
    assert_eq!(wait.known.lsn, 110);
}

#[test]
fn missing_slot_does_not_confirm() {
    let mut unused = physical("b", 200);
    unused.in_use = false;
    let wait = scan(scanning("a, b", -1), vec![physical("a", 200), unused, physical("x", 200)]);
    assert!(matches!(wait.phase, ConfirmationPhase::Sleep));
}

#[test]
fn enough_of_the_named_slots_confirm() {
    let wait = scan(
        scanning("a, b, c", 2),
        vec![physical("a", 100), physical("b", 50), physical("c", 300)],
    );
    assert!(is_confirmed(&wait));
    assert_eq!(wait.known.lsn, 50);
    let wait = scan(scanning("a, b, c", 2), vec![physical("a", 100), physical("b", 50)]);
    assert!(!is_confirmed(&wait));
    // More than there are names asks for all of them.
    let wait = scan(scanning("a", 100), vec![physical("a", 100)]);
    assert!(is_confirmed(&wait));
}

#[test]
fn logical_slot_confirms_by_its_confirmed_position() {
    let mut logical = physical("a", 500);
    logical.database = 5;
    logical.confirmed_flush = 99;
    let slots = vec![logical, physical("b", 150)];
    let names = vec!["a".to_string(), "b".to_string()];
    let tally = tally_confirmations(&slots, &names, 100);
    assert_eq!((tally.confirmed, tally.lowest), (1, 99));
}

#[test]
fn known_flush_is_never_set_back() {
    let mut wait = scanning("a", 1);
    wait.known = known(90, vec![physical("a", 90)]);
    wait.commit_lsn = 60;
    let wait = scan(wait, vec![physical("a", 70)]);
    assert!(is_confirmed(&wait));
    assert_eq!(wait.known.lsn, 90);
}

#[test]
fn slot_without_position_is_the_lowest() {
    let slots = || vec![physical("a", 0x50), physical("b", 0), physical("c", 0x90)];
    let names = vec!["a".to_string(), "b".to_string(), "c".to_string()];
    let tally = tally_confirmations(&slots(), &names, 0x40);
    assert_eq!((tally.confirmed, tally.lowest), (2, 0));
    assert_eq!(tally_confirmations(&vec![], &names, 0x40).lowest, 0);

    let mut wait = scanning("a, b, c", 2);
    wait.commit_lsn = 0x40;
    let wait = scan(wait, slots());
    assert!(is_confirmed(&wait));
    assert_eq!(wait.known.lsn, 0);
    // A later message that only one of the slots has is held back.
    let mut next = hold(0x60, wait.known);
    for reply in [
        Reply::Settings(settings("a, b, c", 2)),
        Reply::OwnSlot(None),
        Reply::Time(0),
        Reply::Settings(settings("a, b, c", 2)),
        Reply::LocalSlots(slots()),
    ] {
        next = wait_for_standby_confirmation(next, reply);
    }
    assert!(matches!(next.phase, ConfirmationPhase::Sleep));
}

#[test]
fn nothing_is_required_any_more() {
    let mut wait = ConfirmationWait::start(100, KnownFlush::nothing());
    for reply in [
        Reply::Settings(settings("a", -1)),
        Reply::OwnSlot(None),
        Reply::Time(0),
        Reply::Settings(settings("", -1)),
    ] {
        wait = wait_for_standby_confirmation(wait, reply);
    }
    assert!(matches!(
        wait.phase,
        ConfirmationPhase::Finished {
            end: WaitEnd::NothingRequired
        }
    ));
}

/// A wait that slept once and is past its interrupts.
fn after_sleep() -> ConfirmationWait {
    let wait = scan(scanning("a", -1), vec![]);
    let wait = wait_for_standby_confirmation(
        wait,
        Reply::Woken {
            postmaster_died: false,
        },
    );
    assert!(matches!(wait.request(), Request::CheckInterrupts));
    wait_for_standby_confirmation(wait, Reply::Done)
}

#[test]
fn wait_times_out_past_the_limit() {
    assert!(matches!(after_sleep().request(), Request::ReadTimeout));
    let wait = wait_for_standby_confirmation(
        after_sleep(),
        Reply::Timeout {
            limit: 60,
            now: 1_060_001,
        },
    );
    assert!(matches!(
        wait.request(),
        Request::Exit {
            code: 0,
            timed_out: true
        }
    ));
    let wait = wait_for_standby_confirmation(
        after_sleep(),
        Reply::Timeout {
            limit: 60,
            now: 1_060_000,
        },
    );
    assert!(matches!(wait.request(), Request::CheckReload));
}

#[test]
fn time_limits() {
    assert!(timed_out(0, 1, 1_001));
    assert!(!timed_out(0, 1, 1_000));
    assert!(!timed_out(0, 0, i64::MAX));
    assert!(!timed_out(0, -1, i64::MAX));
    assert!(!timed_out(i64::MAX, i32::MAX, i64::MAX));
    assert!(timed_out(i64::MIN, i32::MAX, i64::MAX));
}

#[test]
fn walsender_exits_with_the_postmaster() {
    let wait = scan(scanning("a", -1), vec![]);
    let wait = wait_for_standby_confirmation(
        wait,
        Reply::Woken {
            postmaster_died: true,
        },
    );
    assert!(matches!(
        wait.request(),
        Request::Exit {
            code: 1,
            timed_out: false
        }
    ));
}

#[test]
fn slots_are_looked_at_again() {
    let mut wait = after_sleep();
    for reply in [
        Reply::Timeout { limit: 0, now: 0 },
        Reply::ReloadPending(false),
        Reply::Settings(settings("a", -1)),
        Reply::LocalSlots(vec![physical("a", 100)]),
    ] {
        wait = wait_for_standby_confirmation(wait, reply);
    }
    assert!(is_confirmed(&wait));
    assert_eq!(wait.wait_start, 1_000_000);
}

#[test]
fn new_configuration_may_end_the_wait() {
    for (names, ends) in [("", true), ("a, b", false)] {
        let mut wait = after_sleep();
        for reply in [
            Reply::Timeout { limit: 0, now: 0 },
            Reply::ReloadPending(true),
            Reply::Done,
            Reply::Settings(settings(names, -1)),
            Reply::OwnSlot(None),
        ] {
            wait = wait_for_standby_confirmation(wait, reply);
        }
        if ends {
            assert!(matches!(
                wait.phase,
                ConfirmationPhase::Finished {
                    end: WaitEnd::Skipped
                }
            ));
        } else {
            assert!(matches!(wait.phase, ConfirmationPhase::Configure));
        }
    }
}

#[test]
fn confirmed_position_is_remembered() {
    let wait = scan(scanning("a", -1), vec![physical("a", 200)]);
    let next = hold(200, wait.known);
    let next = wait_for_standby_confirmation(next, Reply::Settings(settings("a", -1)));
    let next = wait_for_standby_confirmation(next, Reply::OwnSlot(None));
    assert!(matches!(
        next.phase,
        ConfirmationPhase::Finished {
            end: WaitEnd::Skipped
        }
    ));
}

#[test]
fn enough_standbys_are_ahead_of_every_message() {
    let mut known = KnownFlush::nothing();
    let mut positions: (u64, u64, u64) = (10, 10, 10);
    for lsn in [5, 20, 30, 25, 40] {
        let before = known.lsn;
        let mut wait = hold(lsn, known);
        loop {
            let reply = match wait.request() {
                Request::Nothing => break,
                Request::ReadSettings => Reply::Settings(settings("a, b, c", 2)),
                Request::ReadOwnSlot => Reply::OwnSlot(Some("subscriber".to_string())),
                Request::ReadClock => Reply::Time(0),
                Request::ListLocalSlots => Reply::LocalSlots(vec![
                    physical("a", positions.0),
                    physical("b", positions.1),
                    physical("c", positions.2),
                ]),
                Request::WaitForConfirmation { .. } => {
                    positions = (positions.0 + 3, positions.1 + 5, positions.2);
                    Reply::Woken {
                        postmaster_died: false,
                    }
                }
                Request::CheckInterrupts => Reply::Done,
                Request::ReadTimeout => Reply::Timeout { limit: 0, now: 0 },
                Request::CheckReload => Reply::ReloadPending(false),
                _ => panic!("not asked of a walsender"),
            };
            wait = wait_for_standby_confirmation(wait, reply);
        }
        assert!(wait.known.lsn >= before);
        known = wait.known;
        assert!(positions.0 >= lsn && positions.1 >= lsn);
    }
    assert_eq!((positions, known.lsn), ((40, 60, 10), 10));
}
