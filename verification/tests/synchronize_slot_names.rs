use pg_failover_slots_rs::guc::{parse_synchronize_slot_names, FailoverSlotFilterKey};

#[test]
fn test_parse_sync_slot_names() {
    let filters =
        parse_synchronize_slot_names("name:slot1, plugin:test_decoding");
    assert_eq!(filters.len(), 2);
    assert_eq!(filters[0].key, FailoverSlotFilterKey::Name);
    assert_eq!(filters[0].val, "slot1");
    assert_eq!(filters[1].key, FailoverSlotFilterKey::Plugin);
    assert_eq!(filters[1].val, "test_decoding");
}

#[test]
fn test_parse_sync_bare_word() {
    let filters = parse_synchronize_slot_names("my_slot");
    assert_eq!(filters.len(), 1);
    assert_eq!(filters[0].key, FailoverSlotFilterKey::Name);
    assert_eq!(filters[0].val, "my_slot");
}

#[test]
fn test_parse_sync_default_all() {
    let filters = parse_synchronize_slot_names("name_like:%%");
    assert_eq!(filters.len(), 1);
    assert_eq!(filters[0].key, FailoverSlotFilterKey::NameLike);
    assert_eq!(filters[0].val, "%%");
}

#[test]
fn test_parse_sync_empty_string() {
    let filters = parse_synchronize_slot_names("");
    assert!(filters.is_empty());
}

#[test]
fn test_parse_sync_whitespace_only() {
    let filters = parse_synchronize_slot_names("   ");
    assert!(filters.is_empty());
}

#[test]
fn test_parse_sync_trailing_comma() {
    let filters = parse_synchronize_slot_names("name:slot1,");
    assert_eq!(filters.len(), 1);
    assert_eq!(filters[0].val, "slot1");
}

#[test]
fn test_parse_sync_leading_comma() {
    let filters = parse_synchronize_slot_names(",name:slot1");
    assert_eq!(filters.len(), 1);
    assert_eq!(filters[0].val, "slot1");
}

#[test]
fn test_parse_sync_multiple_bare_words() {
    let filters = parse_synchronize_slot_names("slot1, slot2, slot3");
    assert_eq!(filters.len(), 3);
    for f in &filters {
        assert_eq!(f.key, FailoverSlotFilterKey::Name);
    }
    assert_eq!(filters[0].val, "slot1");
    assert_eq!(filters[1].val, "slot2");
    assert_eq!(filters[2].val, "slot3");
}

#[test]
fn test_parse_sync_all_filter_types() {
    let filters = parse_synchronize_slot_names(
        "name:exact_slot, name_like:prefix_%, plugin:pgoutput",
    );
    assert_eq!(filters.len(), 3);
    assert_eq!(filters[0].key, FailoverSlotFilterKey::Name);
    assert_eq!(filters[0].val, "exact_slot");
    assert_eq!(filters[1].key, FailoverSlotFilterKey::NameLike);
    assert_eq!(filters[1].val, "prefix_%");
    assert_eq!(filters[2].key, FailoverSlotFilterKey::Plugin);
    assert_eq!(filters[2].val, "pgoutput");
}

#[test]
fn test_parse_sync_unknown_key_skipped() {
    // Unknown keys should be skipped with a warning (not panic)
    let filters = parse_synchronize_slot_names("bogus:val, name:good");
    assert_eq!(filters.len(), 1);
    assert_eq!(filters[0].val, "good");
}

#[test]
fn test_parse_sync_extra_whitespace() {
    let filters =
        parse_synchronize_slot_names("  name : slot1 , plugin : test_decoding  ");
    assert_eq!(filters.len(), 2);
    assert_eq!(filters[0].key, FailoverSlotFilterKey::Name);
    assert_eq!(filters[0].val, "slot1");
    assert_eq!(filters[1].key, FailoverSlotFilterKey::Plugin);
    assert_eq!(filters[1].val, "test_decoding");
}

#[test]
fn test_parse_sync_name_like_with_percent() {
    let filters = parse_synchronize_slot_names("name_like:sub_%");
    assert_eq!(filters.len(), 1);
    assert_eq!(filters[0].key, FailoverSlotFilterKey::NameLike);
    assert_eq!(filters[0].val, "sub_%");
}

#[test]
fn test_parse_sync_name_like_with_underscore() {
    let filters = parse_synchronize_slot_names("name_like:slot_");
    assert_eq!(filters.len(), 1);
    assert_eq!(filters[0].val, "slot_");
}

#[test]
fn test_parse_sync_mixed_bare_and_keyed() {
    let filters = parse_synchronize_slot_names("my_slot, plugin:pgoutput, other_slot");
    assert_eq!(filters.len(), 3);
    assert_eq!(filters[0].key, FailoverSlotFilterKey::Name);
    assert_eq!(filters[0].val, "my_slot");
    assert_eq!(filters[1].key, FailoverSlotFilterKey::Plugin);
    assert_eq!(filters[1].val, "pgoutput");
    assert_eq!(filters[2].key, FailoverSlotFilterKey::Name);
    assert_eq!(filters[2].val, "other_slot");
}

#[test]
fn test_parse_sync_multiple_unknown_keys() {
    let filters = parse_synchronize_slot_names("bad1:x, bad2:y, name:ok");
    assert_eq!(filters.len(), 1);
    assert_eq!(filters[0].val, "ok");
}

#[test]
fn test_parse_sync_colon_in_value() {
    // Value with colon: key is everything before first colon
    let filters = parse_synchronize_slot_names("name:host:port");
    assert_eq!(filters.len(), 1);
    assert_eq!(filters[0].key, FailoverSlotFilterKey::Name);
    assert_eq!(filters[0].val, "host:port");
}

#[test]
fn test_parse_sync_name_like_empty_pattern() {
    let filters = parse_synchronize_slot_names("name_like:");
    assert_eq!(filters.len(), 1);
    assert_eq!(filters[0].key, FailoverSlotFilterKey::NameLike);
    assert_eq!(filters[0].val, "");
}

#[test]
fn test_parse_sync_plugin_filter() {
    let filters = parse_synchronize_slot_names("plugin:pgoutput");
    assert_eq!(filters.len(), 1);
    assert_eq!(filters[0].key, FailoverSlotFilterKey::Plugin);
    assert_eq!(filters[0].val, "pgoutput");
}

#[test]
fn test_parse_sync_plugin_test_decoding() {
    let filters = parse_synchronize_slot_names("plugin:test_decoding");
    assert_eq!(filters.len(), 1);
    assert_eq!(filters[0].key, FailoverSlotFilterKey::Plugin);
    assert_eq!(filters[0].val, "test_decoding");
}

#[test]
fn written_filters_are_read_back() {
    let written = "name:a,name_like:b%,plugin:c d,name:,plugin:x:y";
    let filters: Vec<(FailoverSlotFilterKey, String)> = parse_synchronize_slot_names(written)
        .into_iter()
        .map(|f| (f.key, f.val))
        .collect();
    let expected = vec![
        (FailoverSlotFilterKey::Name, "a".to_string()),
        (FailoverSlotFilterKey::NameLike, "b%".to_string()),
        (FailoverSlotFilterKey::Plugin, "c d".to_string()),
        (FailoverSlotFilterKey::Name, "".to_string()),
        (FailoverSlotFilterKey::Plugin, "x:y".to_string()),
    ];
    assert_eq!(filters, expected);
}

#[test]
fn keys_are_told_apart_exactly() {
    assert!(parse_synchronize_slot_names("Name:a, names:b, name_lik:c, :d").is_empty());
    let filters = parse_synchronize_slot_names(" : , name");
    assert_eq!(filters.len(), 1);
    assert_eq!(filters[0].val, "name");
}
