use pg_failover_slots_rs::pg_compat::INVALID_TRANSACTION_ID;
use pg_failover_slots_rs::remote::RemoteSlot;

#[test]
fn test_remote_slot_struct() {
    let slot = RemoteSlot {
        name: "test_slot".to_string(),
        plugin: "test_decoding".to_string(),
        database: "testdb".to_string(),
        two_phase: false,
        catalog_xmin: INVALID_TRANSACTION_ID,
        restart_lsn: 0u64,
        confirmed_lsn: 0u64,
    };
    assert_eq!(slot.name, "test_slot");
    assert_eq!(slot.plugin, "test_decoding");
    assert_eq!(slot.database, "testdb");
    assert!(!slot.two_phase);
    assert_eq!(slot.restart_lsn, 0);
    assert_eq!(slot.confirmed_lsn, 0);
}

#[test]
fn test_remote_slot_clone() {
    let slot = RemoteSlot {
        name: "original".to_string(),
        plugin: "pgoutput".to_string(),
        database: "mydb".to_string(),
        two_phase: true,
        catalog_xmin: INVALID_TRANSACTION_ID,
        restart_lsn: 0xA_0000_0001u64,
        confirmed_lsn: 0xA_0000_0002u64,
    };
    let cloned = slot.clone();
    assert_eq!(slot.name, cloned.name);
    assert_eq!(slot.plugin, cloned.plugin);
    assert_eq!(slot.database, cloned.database);
    assert_eq!(slot.restart_lsn, cloned.restart_lsn);
    assert_eq!(slot.confirmed_lsn, cloned.confirmed_lsn);
    assert_eq!(slot.two_phase, cloned.two_phase);
    assert_eq!(slot.catalog_xmin, cloned.catalog_xmin);
}

#[test]
fn test_remote_slot_with_lsn_values() {
    let slot = RemoteSlot {
        name: "logical_slot".to_string(),
        plugin: "pgoutput".to_string(),
        database: "production".to_string(),
        two_phase: false,
        catalog_xmin: INVALID_TRANSACTION_ID,
        restart_lsn: 0x0000_0001_0000_0000u64, // 1/0
        confirmed_lsn: 0x0000_0001_0000_00F0u64, // 1/F0
    };
    assert!(slot.confirmed_lsn > slot.restart_lsn);
    assert_eq!((slot.restart_lsn >> 32) as u32, 1);
}

#[test]
fn test_remote_slot_debug_format() {
    let slot = RemoteSlot {
        name: "dbg_slot".to_string(),
        plugin: "test_decoding".to_string(),
        database: "mydb".to_string(),
        two_phase: false,
        catalog_xmin: INVALID_TRANSACTION_ID,
        restart_lsn: 0u64,
        confirmed_lsn: 0u64,
    };
    let debug_str = format!("{:?}", slot);
    assert!(debug_str.contains("dbg_slot"));
    assert!(debug_str.contains("test_decoding"));
}
