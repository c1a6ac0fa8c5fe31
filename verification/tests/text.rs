use pg_failover_slots_rs::text::{char_is_white_space, parse_unsigned, same_text, split, split_once, trim};

#[test]
fn white_space_is_that_of_unicode() {
    for code in 0..=0x10FFFFu32 {
        if let Some(c) = char::from_u32(code) {
            assert_eq!(char_is_white_space(c), c.is_whitespace(), "{code:x}");
        }
    }
}

const TEXTS: [&str; 14] = [
    "", " ", ",", ",,", "a", " a ", "a,b", " a , b ", "a,,b", ",a", "a,", "\u{3000}\u{fc}\t,\u{1f600}\n",
    "\u{85}x y\u{a0}", "a:b:c",
];

#[test]
fn trim_agrees_with_std() {
    for text in TEXTS {
        assert_eq!(trim(text), text.trim());
    }
}

#[test]
fn split_agrees_with_std() {
    for text in TEXTS {
        for sep in [',', ':', 'a'] {
            assert_eq!(split(text, sep), text.split(sep).collect::<Vec<&str>>());
            assert_eq!(split_once(text, sep), text.split_once(sep));
        }
    }
}

#[test]
fn same_text_is_equality() {
    for a in TEXTS {
        for b in TEXTS {
            assert_eq!(same_text(a, b), a == b);
        }
    }
}

#[test]
fn numbers_agree_with_std() {
    let numbers = [
        "", "0", "+0", "-0", "7", "007", "+7", "1e3", "4294967295", "4294967296", "99999999999",
        "18446744073709551615", "18446744073709551616", " 1", "1 ", "a", "\u{ff11}",
    ];
    for text in numbers {
        assert_eq!(
            parse_unsigned(text, 10, u32::MAX as u64).map(|n| n as u32),
            text.parse::<u32>().ok(),
            "{text:?}"
        );
        assert_eq!(parse_unsigned(text, 10, u64::MAX), text.parse::<u64>().ok());
        assert_eq!(
            parse_unsigned(text, 2, u64::MAX),
            u64::from_str_radix(text, 2).ok()
        );
    }
}
