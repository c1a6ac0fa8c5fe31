use pg_failover_slots_rs::guc::{FailoverSlotFilter, FailoverSlotFilterKey, Settings};
use pg_failover_slots_rs::remote::{
    answered_slot_names, answered_slots, build_slot_filter_query, make_sync_failover_slots_dsn,
    physical_slot_lsn_query,
    primary_slot_info_query, remote_connect_params, remote_get_physical_slot_lsn,
    remote_get_primary_slot_info, DsnError, ExecStatusType, PgResult, SLOT_NAMES_QUERY,
};

fn filter(key: FailoverSlotFilterKey, val: &str) -> FailoverSlotFilter {
    FailoverSlotFilter {
        key,
        val: val.to_string(),
    }
}

fn row(cells: &[Option<&str>]) -> Vec<Option<String>> {
    cells.iter().map(|c| c.map(|s| s.to_string())).collect()
}

fn tuples(rows: Vec<Vec<Option<String>>>) -> PgResult {
    PgResult {
        status: ExecStatusType::TuplesOk,
        error: Some(String::new()),
        rows,
    }
}

const BASE: &str = "SELECT slot_name, plugin, database, two_phase, catalog_xmin, restart_lsn, \
                    confirmed_flush_lsn FROM pg_catalog.pg_replication_slots \
                    WHERE database IS NOT NULL AND (";

#[test]
fn query_for_one_filter() {
    let filters = vec![filter(FailoverSlotFilterKey::Name, "s")];
    let query = build_slot_filter_query(&filters, &vec!["'s'".to_string()]);
    assert_eq!(
        query,
        format!("{BASE}  slot_name OPERATOR(pg_catalog.=) 's')")
    );
}

#[test]
fn query_for_all_kinds_of_filters() {
    let filters = vec![
        filter(FailoverSlotFilterKey::NameLike, "a%"),
        filter(FailoverSlotFilterKey::Plugin, "p"),
        filter(FailoverSlotFilterKey::Name, "it's"),
    ];
    let literals = vec!["'a%'".to_string(), "'p'".to_string(), "'it''s'".to_string()];
    let expected = format!(
        "{BASE}  slot_name LIKE 'a%' OR plugin OPERATOR(pg_catalog.=) 'p' \
         OR slot_name OPERATOR(pg_catalog.=) 'it''s')"
    );
    assert_eq!(build_slot_filter_query(&filters, &literals), expected);
    assert_eq!(primary_slot_info_query(&filters, &literals), Some(expected));
}

#[test]
fn no_query_without_filters() {
    assert_eq!(primary_slot_info_query(&vec![], &vec![]), None);
    assert_eq!(build_slot_filter_query(&vec![], &vec![]), format!("{BASE})"));
}

#[test]
fn query_for_the_position_of_a_slot() {
    assert_eq!(
        physical_slot_lsn_query("'standby_slot'"),
        "SELECT restart_lsn FROM pg_catalog.pg_replication_slots \
         WHERE slot_name OPERATOR(pg_catalog.=) 'standby_slot'"
    );
}

#[test]
fn dsn_is_configured_or_that_of_the_wal_receiver() {
    let conninfo = Some("host=wal".to_string());
    let configured = Settings {
        primary_dsn: Some("host=primary port=5432".to_string()),
        ..Settings::default()
    };
    assert_eq!(
        make_sync_failover_slots_dsn(&configured, &conninfo, "db"),
        Ok("host=primary port=5432 dbname=db".to_string())
    );
    assert_eq!(
        make_sync_failover_slots_dsn(&configured, &None, "db"),
        Ok("host=primary port=5432 dbname=db".to_string())
    );
    assert_eq!(
        make_sync_failover_slots_dsn(&Settings::default(), &conninfo, "db"),
        Ok("host=wal dbname=db".to_string())
    );
    assert_eq!(
        make_sync_failover_slots_dsn(&Settings::default(), &None, "db"),
        Err(DsnError::NoWalReceiver)
    );
}

#[test]
fn connection_parameters() {
    let params: Vec<(&str, String)> = remote_connect_params("host=p dbname=d", "app")
        .into_iter()
        .map(|p| (p.keyword, p.value))
        .collect();
    let expected = vec![
        ("dbname", "host=p dbname=d".to_string()),
        ("application_name", "app".to_string()),
        ("connect_timeout", "30".to_string()),
        ("keepalives", "1".to_string()),
        ("keepalives_idle", "20".to_string()),
        ("keepalives_interval", "20".to_string()),
        ("keepalives_count", "5".to_string()),
    ];
    assert_eq!(params, expected);
}

#[test]
fn slots_are_read_from_rows() {
    let result = tuples(vec![
        row(&[
            Some("s1"),
            Some("pgoutput"),
            Some("db1"),
            Some("t"),
            Some("751"),
            Some("0/16B3748"),
            Some("A/BCDEF012"),
        ]),
        row(&[Some("s2"), Some("p"), Some("db2"), Some("f"), None, None, None]),
        row(&[
            Some("s3"),
            None,
            Some("db3"),
            Some("true"),
            Some("4294967296"),
            Some("x"),
            Some("/F"),
        ]),
        row(&[Some("s4")]),
    ]);
    let slots = remote_get_primary_slot_info(&result);
    assert_eq!(slots.len(), 4);
    assert_eq!(slots[0].name, "s1");
    assert_eq!(slots[0].plugin, "pgoutput");
    assert_eq!(slots[0].database, "db1");
    assert!(slots[0].two_phase);
    assert_eq!(slots[0].catalog_xmin, 751);
    assert_eq!(slots[0].restart_lsn, 0x16B3748);
    assert_eq!(slots[0].confirmed_lsn, 0xA_BCDE_F012);
    assert!(!slots[1].two_phase);
    assert_eq!(
        (slots[1].catalog_xmin, slots[1].restart_lsn, slots[1].confirmed_lsn),
        (0, 0, 0)
    );
    assert_eq!(slots[2].plugin, "");
    assert!(!slots[2].two_phase);
    assert_eq!(
        (slots[2].catalog_xmin, slots[2].restart_lsn, slots[2].confirmed_lsn),
        (0, 0, 15)
    );
    assert_eq!((slots[3].name.as_str(), slots[3].database.as_str()), ("s4", ""));
}

#[test]
fn failed_query_gives_no_slots() {
    let mut result = tuples(vec![row(&[Some("s1")])]);
    result.status = ExecStatusType::FatalError;
    assert!(remote_get_primary_slot_info(&result).is_empty());
    assert_eq!(remote_get_physical_slot_lsn(&result), 0);
}

#[test]
fn position_is_read_from_the_only_row() {
    assert_eq!(
        remote_get_physical_slot_lsn(&tuples(vec![row(&[Some("1/2A")])])),
        0x1_0000_002A
    );
    assert_eq!(remote_get_physical_slot_lsn(&tuples(vec![row(&[None])])), 0);
    assert_eq!(remote_get_physical_slot_lsn(&tuples(vec![])), 0);
    assert_eq!(
        remote_get_physical_slot_lsn(&tuples(vec![row(&[Some("1/1")]), row(&[Some("1/1")])])),
        0
    );
}

#[test]
fn result_fields() {
    let result = tuples(vec![row(&[Some("x"), None])]);
    assert_eq!(result.status(), ExecStatusType::TuplesOk);
    assert!(result.is_tuples_ok());
    assert_eq!(result.ntuples(), 1);
    assert_eq!(result.get_value(0, 0), "x");
    assert_eq!(result.get_value(0, 1), "");
    assert_eq!(result.get_value(0, 2), "");
    assert_eq!(result.get_value(-1, 0), "");
    assert!(!result.is_null(0, 0));
    assert!(result.is_null(0, 1));
    assert!(result.is_null(1, 0));
    assert!(result.is_null(0, -1));
    assert_eq!(result.error_message(), "");
}

#[test]
fn error_messages() {
    let mut result = PgResult {
        status: ExecStatusType::FatalError,
        error: None,
        rows: vec![],
    };
    assert_eq!(result.error_message(), "(null result)");
    assert!(!result.is_tuples_ok());
    assert_eq!(result.ntuples(), 0);
    result.error = Some("ERROR: no".to_string());
    assert_eq!(result.error_message(), "ERROR: no");
}

#[test]
fn answer_is_told_from_failure() {
    let mut result = tuples(vec![row(&[Some("s1")]), row(&[Some("s2")]), row(&[None])]);
    assert_eq!(answered_slots(&result).unwrap()[1].name, "s2");
    assert_eq!(
        answered_slot_names(&result),
        Some(vec!["s1".to_string(), "s2".to_string(), String::new()])
    );
    assert_eq!(answered_slots(&tuples(vec![])).unwrap().len(), 0);
    assert_eq!(answered_slot_names(&tuples(vec![])), Some(vec![]));
    result.status = ExecStatusType::FatalError;
    assert!(answered_slots(&result).is_none());
    assert_eq!(answered_slot_names(&result), None);
}

#[test]
fn query_for_the_names_of_all_slots() {
    assert_eq!(
        SLOT_NAMES_QUERY,
        "SELECT slot_name FROM pg_catalog.pg_replication_slots WHERE database IS NOT NULL"
    );
}
