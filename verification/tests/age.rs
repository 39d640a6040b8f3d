use mmr::age::{min_age_seconds, parse_u64, should_print, DEFAULT_MIN_AGE_SECONDS};

#[test]
fn missing_file_is_never_printed() {
    assert!(!should_print(false, 9999, 0, 0));
    assert!(!should_print(false, 0, 0, 0));
}

#[test]
fn age_must_strictly_exceed_threshold() {
    // Exactly the threshold is not enough.
    assert!(!should_print(true, 2700, 0, 2700));
    // One nanosecond past the threshold is.
    assert!(should_print(true, 2700, 1, 2700));
    // A whole second past the threshold is.
    assert!(should_print(true, 2701, 0, 2700));
    // Younger than the threshold is not.
    assert!(!should_print(true, 2699, 999_999_999, 2700));
}

#[test]
fn default_threshold_is_45_minutes() {
    assert_eq!(DEFAULT_MIN_AGE_SECONDS, 2700);
    assert_eq!(min_age_seconds(None), 2700);
}

#[test]
fn age_argument_parses_decimal_seconds() {
    assert_eq!(parse_u64(&b"2700".to_vec()), Some(2700));
    assert_eq!(parse_u64(&b"0".to_vec()), Some(0));
    assert_eq!(parse_u64(&b"+42".to_vec()), Some(42));
    assert_eq!(parse_u64(&b"18446744073709551615".to_vec()), Some(u64::MAX));
}

#[test]
fn malformed_age_argument_is_rejected() {
    assert_eq!(parse_u64(&b"".to_vec()), None);
    assert_eq!(parse_u64(&b"+".to_vec()), None);
    assert_eq!(parse_u64(&b"12a".to_vec()), None);
    assert_eq!(parse_u64(&b"-5".to_vec()), None);
    assert_eq!(parse_u64(&b" 5".to_vec()), None);
    // One past the largest value that fits.
    assert_eq!(parse_u64(&b"18446744073709551616".to_vec()), None);
}

#[test]
fn malformed_age_argument_falls_back_to_default() {
    assert_eq!(min_age_seconds(Some(&b"90".to_vec())), 90);
    assert_eq!(min_age_seconds(Some(&b"ninety".to_vec())), DEFAULT_MIN_AGE_SECONDS);
    assert_eq!(min_age_seconds(Some(&b"".to_vec())), DEFAULT_MIN_AGE_SECONDS);
    assert_eq!(
        min_age_seconds(Some(&b"99999999999999999999".to_vec())),
        DEFAULT_MIN_AGE_SECONDS
    );
}
