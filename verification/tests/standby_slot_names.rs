use pg_failover_slots_rs::guc::parse_standby_slot_names;

#[test]
fn test_parse_standby_slot_names() {
    let names = parse_standby_slot_names("slot1, slot2, slot3");
    assert_eq!(names, vec!["slot1", "slot2", "slot3"]);
}

#[test]
fn test_parse_standby_slot_names_empty() {
    let names = parse_standby_slot_names("");
    assert!(names.is_empty());
}

#[test]
fn test_parse_standby_slot_names_single() {
    let names = parse_standby_slot_names("my_slot");
    assert_eq!(names, vec!["my_slot"]);
}

#[test]
fn test_parse_standby_slot_names_whitespace() {
    let names = parse_standby_slot_names("  slot1 , slot2 ,  slot3  ");
    assert_eq!(names, vec!["slot1", "slot2", "slot3"]);
}

#[test]
fn test_parse_standby_slot_names_trailing_comma() {
    let names = parse_standby_slot_names("slot1,slot2,");
    assert_eq!(names, vec!["slot1", "slot2"]);
}

#[test]
fn test_parse_standby_slot_names_double_comma() {
    // Double comma should produce no empty entries
    let names = parse_standby_slot_names("slot1,,slot2");
    assert_eq!(names, vec!["slot1", "slot2"]);
}

#[test]
fn test_parse_standby_slot_names_whitespace_only() {
    let names = parse_standby_slot_names("   ");
    assert!(names.is_empty());
}

#[test]
fn test_parse_standby_slot_names_many_slots() {
    let names =
        parse_standby_slot_names("a, b, c, d, e, f, g, h, i, j");
    assert_eq!(names.len(), 10);
    assert_eq!(names[0], "a");
    assert_eq!(names[9], "j");
}

#[test]
fn joined_names_are_read_one_after_the_other() {
    for (a, b) in [("x", "y"), ("", "y"), (" x ,, ", "y,z"), ("a,b", " ")] {
        let mut both = parse_standby_slot_names(a);
        both.extend(parse_standby_slot_names(b));
        assert_eq!(parse_standby_slot_names(&format!("{a},{b}")), both);
    }
}

#[test]
fn names_are_read_back() {
    let names = vec!["slot_1", "b c", "d:e", "\u{fc}mlaut"];
    assert_eq!(parse_standby_slot_names(&names.join(",")), names);
    assert_eq!(parse_standby_slot_names(&names.join("\u{2003},\u{85}")), names);
}
