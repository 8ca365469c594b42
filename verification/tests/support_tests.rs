use pantheon::cli::Command;
use pantheon::config::{default_identity_path, default_soul_path, IdentityConfig};
use pantheon::text::{count_lines, count_words, push_decimal, scale_word_count, split_lines};
use pantheon::time::Timestamp;

#[test]
fn test_config_defaults() {
    assert_eq!(default_soul_path(), ".ao/SOUL.md");
    assert_eq!(default_identity_path(), ".ao/IDENTITY.md");
    let identity = IdentityConfig::default();
    assert_eq!(identity.soul_path, ".ao/SOUL.md");
    assert_eq!(identity.identity_path, ".ao/IDENTITY.md");
    assert!(matches!(Command::Chat, Command::Chat));
}

#[test]
fn test_timestamp_formatting() {
    let t = Timestamp::from_unix(0, 0).unwrap();
    assert_eq!(t.format_date(), "1970-01-01");
    assert_eq!(t.format_date_time(), "1970-01-01 00:00:00");
    let t = Timestamp::from_unix(1_700_000_000, 5).unwrap();
    assert_eq!(t.format_date(), "2023-11-14");
    assert_eq!(t.format_date_time(), "2023-11-14 22:13:20");
}

#[test]
fn test_timestamp_round_trip() {
    let t = Timestamp::from_unix(1_234_567_890, 123).unwrap();
    assert_eq!(t.secs(), 1_234_567_890);
    assert_eq!(t.nanos(), 123);
    let back = Timestamp::from_unix(t.secs(), t.nanos()).unwrap();
    assert_eq!(back.secs(), t.secs());
    assert_eq!(back.nanos(), t.nanos());
    let now = Timestamp::now();
    assert!(Timestamp::from_unix(now.secs(), now.nanos()).is_some());
}

#[test]
fn test_timestamp_out_of_range() {
    assert!(Timestamp::from_unix(i64::MAX, 0).is_none());
    assert!(Timestamp::from_unix(0, 2_000_000_000).is_none());
}

#[test]
fn test_word_and_line_counts() {
    assert_eq!(count_words(""), 0);
    assert_eq!(count_words("  a  b\tc\n"), 3);
    assert_eq!(count_words("\u{3000}x\u{a0}y"), 2);
    assert_eq!(count_lines(""), 0);
    assert_eq!(count_lines("a"), 1);
    assert_eq!(count_lines("a\n"), 1);
    assert_eq!(count_lines("a\n\nb"), 3);
}

#[test]
fn test_scale_word_count_matches_f32() {
    for w in [0usize, 1, 2, 3, 7, 10, 90, 1000, 123_456, 16_777_217] {
        assert_eq!(scale_word_count(w), (w as f32 * 1.3) as usize);
    }
}

#[test]
fn test_split_lines() {
    assert_eq!(split_lines("a\r\nb\nc"), vec!["a".to_string(), "b".to_string(), "c".to_string()]);
    assert_eq!(split_lines("a\n"), vec!["a".to_string()]);
    assert_eq!(split_lines(""), Vec::<String>::new());
    assert_eq!(split_lines("\n\nx"), vec!["".to_string(), "".to_string(), "x".to_string()]);
}

#[test]
fn test_push_decimal() {
    let mut s = "n=".to_string();
    push_decimal(&mut s, 0);
    assert_eq!(s, "n=0");
    let mut s = String::new();
    push_decimal(&mut s, 1_234_509);
    assert_eq!(s, "1234509");
}

#[test]
fn test_timestamp_rfc3339() {
    let t = Timestamp::from_unix(0, 0).unwrap();
    assert_eq!(t.to_rfc3339(), "1970-01-01T00:00:00+00:00");
    let t = Timestamp::from_unix(1_700_000_000, 500_000_000).unwrap();
    assert_eq!(t.to_rfc3339(), "2023-11-14T22:13:20.500+00:00");
    let back = Timestamp::parse_rfc3339(&t.to_rfc3339()).unwrap();
    assert_eq!(back.secs(), 1_700_000_000);
    assert_eq!(back.nanos(), 500_000_000);
    let shifted = Timestamp::parse_rfc3339("1970-01-01T02:00:00+02:00").unwrap();
    assert_eq!(shifted.secs(), 0);
    assert!(Timestamp::parse_rfc3339("yesterday").is_none());
}

#[test]
fn test_estimate_is_at_most_ten_per_char() {
    for text in ["", "a", "a b c", "\n\n\n", "word word\nword"] {
        let n = pantheon::session::estimate_tokens(text);
        assert!(n <= 10 * text.chars().count());
    }
}

#[test]
fn test_rfc3339_round_trip_needs_four_digit_year() {
    for (secs, nanos) in [(-62_167_219_200i64, 0u32), (253_402_300_799, 999_999_999), (86_399, 1_500_000_000)] {
        let t = Timestamp::from_unix(secs, nanos).unwrap();
        let back = Timestamp::parse_rfc3339(&t.to_rfc3339()).unwrap();
        assert_eq!((back.secs(), back.nanos()), (secs, nanos));
    }
    let far = Timestamp::from_unix(253_402_300_800, 0).unwrap();
    assert_eq!(far.to_rfc3339(), "+10000-01-01T00:00:00+00:00");
    assert!(Timestamp::parse_rfc3339(&far.to_rfc3339()).is_none());
}

#[test]
fn test_scaled_count_steps_up_to_the_bound() {
    for w in [0usize, 1, 1_000_000, 10_000_000, 12_905_529] {
        assert!(scale_word_count(w + 1) > scale_word_count(w));
    }
    assert_eq!(scale_word_count(12_905_552), scale_word_count(12_905_551));
}

#[test]
fn test_timestamp_range_edges() {
    assert!(Timestamp::from_unix(-8_334_601_228_800, 0).is_some());
    assert!(Timestamp::from_unix(-8_334_601_228_801, 0).is_none());
    assert!(Timestamp::from_unix(8_210_266_876_799, 999_999_999).is_some());
    assert!(Timestamp::from_unix(8_210_266_876_800, 0).is_none());
    assert!(Timestamp::from_unix(59, 1_500_000_000).is_some());
    assert!(Timestamp::from_unix(58, 1_500_000_000).is_none());
    assert!(Timestamp::from_unix(-1, 1_999_999_999).is_some());
    assert!(Timestamp::from_unix(59, 2_000_000_000).is_none());
}
