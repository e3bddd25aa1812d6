use backloggd_feed::text::{contains_str, i64_to_dec, starts_with_str, trim_string, u64_to_dec};

#[test]
fn trimming_strips_both_ends() {
    assert_eq!(trim_string("  Celeste \t\n"), "Celeste");
    assert_eq!(trim_string("Celeste"), "Celeste");
    assert_eq!(trim_string("   "), "");
    assert_eq!(trim_string(""), "");
    assert_eq!(trim_string(" a b "), "a b");
}

#[test]
fn substring_search() {
    assert!(contains_str("Ana finished playing", "finished"));
    assert!(contains_str("abc", ""));
    assert!(contains_str("abc", "abc"));
    assert!(!contains_str("abc", "abcd"));
    assert!(!contains_str("now plaYing", "now playing"));
    assert!(contains_str("xx now playing yy", "now playing"));
}

#[test]
fn prefix_test() {
    assert!(starts_with_str("TWITCH_TOKEN=abc", "TWITCH_TOKEN"));
    assert!(!starts_with_str("X_TWITCH_TOKEN=abc", "TWITCH_TOKEN"));
    assert!(starts_with_str("anything", ""));
}

#[test]
fn decimal_rendering() {
    assert_eq!(u64_to_dec(0), "0");
    assert_eq!(u64_to_dec(1704110400), "1704110400");
    assert_eq!(u64_to_dec(u64::MAX), "18446744073709551615");
    assert_eq!(i64_to_dec(-1), "-1");
    assert_eq!(i64_to_dec(0), "0");
    assert_eq!(i64_to_dec(i64::MIN), "-9223372036854775808");
    assert_eq!(i64_to_dec(i64::MAX), "9223372036854775807");
}
