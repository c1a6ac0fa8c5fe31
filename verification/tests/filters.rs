use pg_failover_slots_rs::guc::{FailoverSlotFilter, FailoverSlotFilterKey};

#[test]
fn test_filter_key_equality() {
    assert_eq!(FailoverSlotFilterKey::Name, FailoverSlotFilterKey::Name);
    assert_eq!(FailoverSlotFilterKey::NameLike, FailoverSlotFilterKey::NameLike);
    assert_eq!(FailoverSlotFilterKey::Plugin, FailoverSlotFilterKey::Plugin);
    assert_ne!(FailoverSlotFilterKey::Name, FailoverSlotFilterKey::NameLike);
    assert_ne!(FailoverSlotFilterKey::Name, FailoverSlotFilterKey::Plugin);
    assert_ne!(FailoverSlotFilterKey::NameLike, FailoverSlotFilterKey::Plugin);
}

#[test]
fn test_filter_struct_debug() {
    let filter = FailoverSlotFilter {
        key: FailoverSlotFilterKey::NameLike,
        val: "sub_%".to_string(),
    };
    let debug_str = format!("{:?}", filter);
    assert!(debug_str.contains("NameLike"));
    assert!(debug_str.contains("sub_%"));
}

#[test]
fn test_filter_clone() {
    let filter = FailoverSlotFilter {
        key: FailoverSlotFilterKey::Plugin,
        val: "pgoutput".to_string(),
    };
    let cloned = filter.clone();
    assert_eq!(filter.key, cloned.key);
    assert_eq!(filter.val, cloned.val);
}
