use pg_failover_slots_rs::guc::{
    get_drop_extra_slots, get_maintenance_db, get_primary_dsn, get_standby_slot_names,
    get_standby_slots_min_confirmed, get_synchronize_slot_names, get_worker_nap_time,
    register_gucs, unknown_synchronize_slot_names_keys, FailoverSlotFilterKey, GucContext, GucId,
    GucValue, Settings, DEFAULT_SYNCHRONIZE_SLOT_NAMES,
};
use pg_failover_slots_rs::{init_plan, pg_failover_slots_rs_version, InitPlan};

#[test]
fn test_guc_defaults() {
    let filters = get_synchronize_slot_names(&Settings::default());
    assert!(!filters.is_empty());
    assert_eq!(filters[0].key, FailoverSlotFilterKey::NameLike);

    assert!(get_drop_extra_slots(&Settings::default()));
    assert_eq!(get_standby_slots_min_confirmed(&Settings::default()), -1);
    assert_eq!(get_worker_nap_time(&Settings::default()), 60_000);
    assert_eq!(get_maintenance_db(&Settings::default()), "postgres");
}

#[test]
fn test_guc_primary_dsn_default_empty() {
    assert!(get_primary_dsn(&Settings::default()).is_empty());
}

#[test]
fn test_guc_standby_slot_names_default_empty() {
    let names = get_standby_slot_names(&Settings::default());
    assert!(names.is_empty());
}

#[test]
fn test_pg_failover_slots_rs_version_fn() {
    assert_eq!(pg_failover_slots_rs_version(), "0.1.0");
}

#[test]
fn test_version_guc_matches_cargo() {
    let guc_val = Settings::default().version.expect("version GUC should be set");
    assert_eq!(guc_val, "0.1.0");
    assert_eq!(guc_val, pg_failover_slots_rs_version());
}

#[test]
fn test_get_maintenance_db_default() {
    let db = get_maintenance_db(&Settings::default());
    assert_eq!(db, "postgres");
}

#[test]
fn test_get_worker_nap_time_default() {
    assert_eq!(get_worker_nap_time(&Settings::default()), 60_000);
}

#[test]
fn test_get_drop_extra_slots_default_true() {
    assert!(get_drop_extra_slots(&Settings::default()));
}

#[test]
fn test_get_standby_slots_min_confirmed_default() {
    assert_eq!(get_standby_slots_min_confirmed(&Settings::default()), -1);
}

#[test]
fn unset_parameters_read_as_empty() {
    let settings = Settings {
        version: None,
        standby_slot_names: None,
        standby_slots_min_confirmed: 2,
        synchronize_slot_names: None,
        drop_extra_slots: false,
        primary_dsn: None,
        worker_nap_time: 1_000,
        maintenance_db: None,
    };
    assert!(get_standby_slot_names(&settings).is_empty());
    assert!(get_synchronize_slot_names(&settings).is_empty());
    assert_eq!(get_primary_dsn(&settings), "");
    assert_eq!(get_maintenance_db(&settings), "postgres");
    assert_eq!(get_standby_slots_min_confirmed(&settings), 2);
    assert!(!get_drop_extra_slots(&settings));
    assert_eq!(get_worker_nap_time(&settings), 1_000);
}

#[test]
fn configured_parameters_are_read() {
    let settings = Settings {
        standby_slot_names: Some("standby1, standby2".to_string()),
        primary_dsn: Some("host=primary".to_string()),
        maintenance_db: Some("admin".to_string()),
        synchronize_slot_names: Some("plugin:pgoutput".to_string()),
        ..Settings::default()
    };
    assert_eq!(get_standby_slot_names(&settings), vec!["standby1", "standby2"]);
    assert_eq!(get_primary_dsn(&settings), "host=primary");
    assert_eq!(get_maintenance_db(&settings), "admin");
    assert_eq!(
        get_synchronize_slot_names(&settings)[0].key,
        FailoverSlotFilterKey::Plugin
    );
}

#[test]
fn unknown_keys_are_told() {
    assert_eq!(
        unknown_synchronize_slot_names_keys("bad1:x, name:ok, bad 2 :y, word, :z"),
        vec!["bad1", "bad 2", ""]
    );
    assert!(unknown_synchronize_slot_names_keys("name_like:%%").is_empty());
}

#[test]
fn parameters_are_registered_with_defaults_and_bounds() {
    let definitions = register_gucs();
    assert_eq!(definitions.len(), 8);
    for definition in &definitions {
        assert!(definition.name.starts_with("pg_failover_slots_rs."));
        assert_eq!(
            definition.context == GucContext::Internal,
            definition.id == GucId::Version
        );
    }
    let confirmed = &definitions[2];
    assert_eq!(confirmed.id, GucId::StandbySlotsMinConfirmed);
    assert_eq!(
        confirmed.name,
        "pg_failover_slots_rs.standby_slots_min_confirmed"
    );
    assert!(matches!(
        confirmed.value,
        GucValue::Integer {
            default: -1,
            min: -1,
            max: 100
        }
    ));
    assert!(!confirmed.superuser_only);
    let nap = &definitions[6];
    assert!(matches!(
        nap.value,
        GucValue::Integer {
            default: 60_000,
            min: 1_000,
            max: i32::MAX
        }
    ));
    assert!(nap.superuser_only && nap.unit_ms);
    assert!(matches!(
        definitions[3].value,
        GucValue::Text("name_like:%%")
    ));
    assert!(matches!(definitions[4].value, GucValue::Boolean(true)));
    assert_eq!(
        definitions
            .iter()
            .filter(|d| d.superuser_only)
            .map(|d| d.id)
            .collect::<Vec<GucId>>(),
        vec![GucId::PrimaryDsn, GucId::WorkerNapTime, GucId::MaintenanceDb]
    );
}

#[test]
fn extension_sets_up_what_it_may() {
    assert_eq!(init_plan(false, false), InitPlan::Refuse);
    assert_eq!(init_plan(false, true), InitPlan::Refuse);
    assert_eq!(init_plan(true, true), InitPlan::Parameters);
    assert_eq!(init_plan(true, false), InitPlan::All);
}

#[test]
fn defaults_are_those_of_the_definitions() {
    const LENGTH: usize = DEFAULT_SYNCHRONIZE_SLOT_NAMES.len();
    assert_eq!(LENGTH, 12);
    let settings = Settings::default();
    for definition in register_gucs() {
        match (definition.id, definition.value) {
            (GucId::Version, GucValue::Text(d)) => assert_eq!(settings.version, Some(d.into())),
            (GucId::StandbySlotNames, GucValue::Text(d)) => {
                assert_eq!(settings.standby_slot_names, Some(d.into()))
            }
            (GucId::StandbySlotsMinConfirmed, GucValue::Integer { default, .. }) => {
                assert_eq!(settings.standby_slots_min_confirmed, default)
            }
            (GucId::SynchronizeSlotNames, GucValue::Text(d)) => {
                assert_eq!(settings.synchronize_slot_names, Some(d.into()))
            }
            (GucId::DropExtraSlots, GucValue::Boolean(d)) => {
                assert_eq!(settings.drop_extra_slots, d)
            }
            (GucId::PrimaryDsn, GucValue::Text(d)) => {
                assert_eq!(settings.primary_dsn, Some(d.into()))
            }
            (GucId::WorkerNapTime, GucValue::Integer { default, .. }) => {
                assert_eq!(settings.worker_nap_time, default)
            }
            (GucId::MaintenanceDb, GucValue::Text(d)) => {
                assert_eq!(settings.maintenance_db, Some(d.into()))
            }
            _ => panic!("a parameter of another type"),
        }
    }
}
