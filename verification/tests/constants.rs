use pg_failover_slots_rs::pg_compat::{
    hot_standby_active, timestamp_tz_plus_milliseconds,
    transaction_id_follows_or_equals, transaction_id_precedes, HotStandbyState,
    INVALID_TRANSACTION_ID, INVALID_XLOG_REC_PTR,
};
use pg_failover_slots_rs::{EXTENSION_NAME, WORKER_WAIT_FEEDBACK};

#[test]
fn test_invalid_xlog_rec_ptr() {
    assert_eq!(INVALID_XLOG_REC_PTR, 0u64);
}

#[test]
fn test_timestamp_tz_plus_milliseconds() {
    let ts: i64 = 1_000_000; // 1 second in microseconds
    let result = timestamp_tz_plus_milliseconds(ts, 500);
    assert_eq!(result, 1_500_000); // 1.5 seconds in microseconds
}

#[test]
fn test_timestamp_tz_plus_milliseconds_zero() {
    let result = timestamp_tz_plus_milliseconds(0, 0);
    assert_eq!(result, 0);
}

#[test]
fn test_timestamp_tz_plus_milliseconds_large() {
    let ts: i64 = 0;
    let result = timestamp_tz_plus_milliseconds(ts, 60_000);
    assert_eq!(result, 60_000_000); // 60 seconds in microseconds
}

#[test]
fn test_timestamp_tz_plus_negative() {
    // Negative milliseconds should subtract
    let ts: i64 = 5_000_000; // 5 seconds
    let result = timestamp_tz_plus_milliseconds(ts, -2_000);
    assert_eq!(result, 3_000_000); // 3 seconds
}

#[test]
fn test_invalid_transaction_id_constant() {
    assert_eq!(INVALID_TRANSACTION_ID, 0u32);
}

#[test]
fn test_extension_name() {
    assert_eq!(EXTENSION_NAME, "pg_failover_slots_rs");
}

#[test]
fn test_worker_wait_feedback() {
    assert_eq!(WORKER_WAIT_FEEDBACK, 10_000);
}

#[test]
fn test_worker_wait_feedback_is_positive() {
    assert!(WORKER_WAIT_FEEDBACK > 0);
}

#[test]
fn transaction_ids_compare_modulo() {
    assert!(transaction_id_precedes(100, 101));
    assert!(!transaction_id_precedes(101, 100));
    assert!(!transaction_id_precedes(100, 100));
    // Ids near the end of the range precede those that come after the wraparound.
    assert!(transaction_id_precedes(u32::MAX, 3));
    assert!(!transaction_id_precedes(3, u32::MAX));
    // Permanent ids precede all normal ones.
    assert!(transaction_id_precedes(2, u32::MAX));
    assert!(!transaction_id_precedes(u32::MAX, 2));
    assert!(transaction_id_precedes(0, 3));
    // At a distance of 2^31 each one precedes the other.
    assert!(transaction_id_precedes(3, 3 + 0x8000_0000));
    assert!(transaction_id_precedes(3 + 0x8000_0000, 3));
}

#[test]
fn transaction_id_follows_or_equals_is_not_precedes() {
    let ids = [0, 1, 2, 3, 4, 100, 0x7FFF_FFFF, 0x8000_0000, 0x8000_0003, u32::MAX];
    for a in ids {
        for b in ids {
            assert_eq!(
                transaction_id_follows_or_equals(a, b),
                !transaction_id_precedes(a, b)
            );
            // Agrees with the signed difference of normal ids.
            if a >= 3 && b >= 3 {
                assert_eq!(
                    transaction_id_precedes(a, b),
                    (a.wrapping_sub(b) as i32) < 0
                );
            }
        }
    }
}

#[test]
fn hot_standby_is_active_with_a_snapshot() {
    assert!(hot_standby_active(HotStandbyState::SnapshotReady));
    assert!(!hot_standby_active(HotStandbyState::SnapshotPending));
    assert!(!hot_standby_active(HotStandbyState::Initialized));
    assert!(!hot_standby_active(HotStandbyState::Disabled));
}
