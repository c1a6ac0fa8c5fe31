use pg_failover_slots_rs::remote::{format_lsn, parse_lsn};

#[test]
fn test_parse_lsn_round_trip() {
    let lsn = parse_lsn("A/BCDEF012");
    let hi = (lsn >> 32) as u32;
    let lo = lsn as u32;
    assert_eq!(hi, 0xA);
    assert_eq!(lo, 0xBCDEF012);
}

#[test]
fn test_parse_lsn_empty() {
    assert_eq!(parse_lsn(""), 0u64);
}

#[test]
fn test_parse_lsn_no_slash() {
    assert_eq!(parse_lsn("12345"), 0u64);
}

#[test]
fn test_parse_lsn_zero() {
    assert_eq!(parse_lsn("0/0"), 0u64);
}

#[test]
fn test_parse_lsn_valid() {
    let lsn = parse_lsn("0/16B3748");
    assert_eq!(lsn, 0x0000_0000_016B_3748);
}

#[test]
fn test_parse_lsn_high_bits() {
    let lsn = parse_lsn("1/2A");
    assert_eq!(lsn, (1u64 << 32) | 0x2A);
}

#[test]
fn test_parse_lsn_max_values() {
    let lsn = parse_lsn("FFFFFFFF/FFFFFFFF");
    assert_eq!(lsn, u64::MAX);
}

#[test]
fn test_parse_lsn_whitespace() {
    let lsn = parse_lsn("  0/16B3748  ");
    assert_eq!(lsn, 0x0000_0000_016B_3748);
}

#[test]
fn test_parse_lsn_lowercase() {
    let lsn = parse_lsn("a/bcdef012");
    assert_eq!((lsn >> 32) as u32, 0xA);
    assert_eq!(lsn as u32, 0xBCDEF012);
}

#[test]
fn test_parse_lsn_only_slash() {
    assert_eq!(parse_lsn("/"), 0u64);
}

#[test]
fn test_parse_lsn_missing_high() {
    let lsn = parse_lsn("/1234");
    assert_eq!(lsn, 0x1234);
}

#[test]
fn test_parse_lsn_missing_low() {
    let lsn = parse_lsn("1/");
    assert_eq!(lsn, 1u64 << 32);
}

#[test]
fn test_parse_lsn_mixed_case() {
    let lsn = parse_lsn("Ab/cDeF");
    assert_eq!((lsn >> 32) as u32, 0xAB);
    assert_eq!(lsn as u32, 0xCDEF);
}

#[test]
fn test_parse_lsn_typical_pg_output() {
    // Typical pg_lsn output from a real system
    let lsn = parse_lsn("0/3000060");
    assert_eq!(lsn, 0x3000060u64);
}

#[test]
fn test_parse_lsn_large_high() {
    let lsn = parse_lsn("FF/0");
    assert_eq!(lsn, 0xFF_0000_0000u64);
}

#[test]
fn test_parse_lsn_both_parts_nonzero() {
    let lsn = parse_lsn("2/ABCD0000");
    assert_eq!((lsn >> 32) as u32, 2);
    assert_eq!(lsn as u32, 0xABCD0000);
}

#[test]
fn test_parse_lsn_pg_format_consistency() {
    // PostgreSQL formats LSNs as "X/Y" where X and Y are hex without leading zeros
    // Verify our parser handles the exact format PG produces
    let lsn1 = parse_lsn("0/1677F20");
    assert!(lsn1 > 0);

    let lsn2 = parse_lsn("0/1677F28");
    assert!(lsn2 > lsn1);

    // Both should have high=0
    assert_eq!((lsn1 >> 32), 0);
    assert_eq!((lsn2 >> 32), 0);
}

#[test]
fn test_parse_lsn_ordering_preserved() {
    let lsn_a = parse_lsn("0/1000000");
    let lsn_b = parse_lsn("0/2000000");
    let lsn_c = parse_lsn("1/0");
    assert!(lsn_a < lsn_b);
    assert!(lsn_b < lsn_c);
}

#[test]
fn parse_lsn_reads_what_format_lsn_writes() {
    for lsn in [0, 1, 0xF, 0x10, 0x16B3748, 0xFFFF_FFFF, 0x1_0000_0000, 0xA_BCDE_F012, u64::MAX] {
        let text = format_lsn(lsn);
        assert_eq!(text, format!("{:X}/{:X}", (lsn >> 32) as u32, lsn as u32));
        assert_eq!(parse_lsn(&text), lsn);
        assert_eq!(parse_lsn(&format!("\t{text}\u{3000}\n")), lsn);
    }
}

#[test]
fn parse_lsn_agrees_with_from_str_radix() {
    let halves = [
        "", "0", "00", "1", "+1", "+", "-1", "++1", "F", "f", "g", "1 ", " 1", "1_0", "0x1",
        "FFFFFFFF", "100000000", "123456789ABCDEF0", "FFFFFFFFFFFFFFFF", "10000000000000000",
        "1/2", "\u{0663}",
    ];
    for hi in halves {
        for lo in halves {
            let text = format!("{hi}/{lo}");
            let trimmed = text.trim();
            let (h, l) = trimmed.split_once('/').unwrap();
            let expected = (u64::from_str_radix(h, 16).unwrap_or(0) << 32)
                | u64::from_str_radix(l, 16).unwrap_or(0);
            assert_eq!(parse_lsn(&text), expected, "{text:?}");
        }
    }
}
