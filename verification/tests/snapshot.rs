//! Timestamps, snapshot names, and the places snapshots live in.

use std::path::PathBuf;

use btrshot::snapshot::{
    current_symlink, full_snapshot_name, incr_snapshot_name, snapshots_dir, stamp_at, timestamp_at, timestamp_now,
    validate_timestamp, TimestampError, LAST_CALENDAR_SECOND, LAST_FOUR_DIGIT_SECOND,
};

// ---------------------------------------------------------------------------
// timestamp_now
// ---------------------------------------------------------------------------

#[test]
fn test_timestamp_now_has_correct_length() {
    let ts = timestamp_now();
    assert_eq!(ts.len(), 15, "expected 15 chars (YYYYMMDD_HHMMSS), got {:?}", ts);
}

#[test]
fn test_timestamp_now_format_matches_pattern() {
    let ts = timestamp_now();
    let chars: Vec<char> = ts.chars().collect();
    assert_eq!(chars.len(), 15);
    for i in (0..=7usize).chain(9..=14) {
        assert!(chars[i].is_ascii_digit(), "position {i} should be a digit in {:?}", ts);
    }
    assert_eq!(chars[8], '_', "position 8 should be '_' in {:?}", ts);
}

#[test]
fn test_timestamp_now_is_within_before_after_bracket() {
    let before = chrono::Utc::now();
    let ts = timestamp_now();
    let after = chrono::Utc::now();

    let parsed = chrono::NaiveDateTime::parse_from_str(&ts, "%Y%m%d_%H%M%S")
        .expect("timestamp_now should produce a parseable string");
    let parsed_utc: chrono::DateTime<chrono::Utc> =
        chrono::DateTime::from_naive_utc_and_offset(parsed, chrono::Utc);

    let lower = before - chrono::TimeDelta::seconds(1);
    assert!(
        parsed_utc >= lower,
        "timestamp_now ({:?}) is before lower bound ({:?})",
        parsed_utc,
        lower
    );
    assert!(
        parsed_utc <= after,
        "timestamp_now ({:?}) is after upper bound ({:?})",
        parsed_utc,
        after
    );
}

#[test]
fn timestamps_of_known_seconds() {
    assert_eq!(timestamp_at(0), "19700101_000000");
    assert_eq!(timestamp_at(1_706_000_000), "20240123_085320");
    assert_eq!(timestamp_at(951_782_399), "20000228_235959");
    assert_eq!(timestamp_at(951_782_400), "20000229_000000");
    assert_eq!(timestamp_at(LAST_FOUR_DIGIT_SECOND), "99991231_235959");
    assert_eq!(timestamp_at(LAST_FOUR_DIGIT_SECOND + 1), "+100000101_000000");
    assert_eq!(timestamp_at(LAST_CALENDAR_SECOND), "+2621421231_235959");
    assert_eq!(chrono::DateTime::<chrono::Utc>::MAX_UTC.timestamp(), LAST_CALENDAR_SECOND);
}

#[test]
fn readings_outside_the_calendar_have_no_text() {
    assert_eq!(stamp_at(&Ok(1_706_000_000)), "20240123_085320");
    assert_eq!(stamp_at(&Ok(LAST_CALENDAR_SECOND as u64)), "+2621421231_235959");
    assert_eq!(stamp_at(&Ok(LAST_CALENDAR_SECOND as u64 + 1)), "");
    assert_eq!(stamp_at(&Ok(u64::MAX)), "");
    assert_eq!(stamp_at(&Err("early".to_owned())), "");
    assert!(full_snapshot_name(&stamp_at(&Ok(u64::MAX))).is_err());
}

#[test]
fn later_times_have_later_texts() {
    let step = 86_400 * 27 + 3_601;
    let mut secs: i64 = 0;
    while secs + step <= LAST_FOUR_DIGIT_SECOND {
        assert!(timestamp_at(secs) < timestamp_at(secs + 1));
        assert!(timestamp_at(secs) < timestamp_at(secs + step));
        secs += step;
    }
}

// ---------------------------------------------------------------------------
// validate_timestamp
// ---------------------------------------------------------------------------

#[test]
fn test_validate_timestamp_accepts_valid_timestamp() {
    assert!(validate_timestamp("20240101_120000").is_ok(), "valid timestamp should be accepted");
}

#[test]
fn test_validate_timestamp_rejects_empty_string() {
    assert!(validate_timestamp("").is_err(), "empty string should be rejected");
}

#[test]
fn test_validate_timestamp_rejects_path_traversal() {
    assert!(validate_timestamp("../evil").is_err(), "path traversal string should be rejected");
}

#[test]
fn test_validate_timestamp_rejects_wrong_length() {
    assert!(
        validate_timestamp("20240101_1200").is_err(),
        "timestamp with wrong length should be rejected"
    );
}

#[test]
fn test_validate_timestamp_rejects_non_digit_in_date_part() {
    assert!(
        validate_timestamp("2024010a_120000").is_err(),
        "non-digit in date part should be rejected"
    );
}

#[test]
fn test_validate_timestamp_rejects_wrong_separator() {
    assert!(
        validate_timestamp("20240101-120000").is_err(),
        "wrong separator character should be rejected"
    );
}

#[test]
fn timestamp_errors_and_their_messages() {
    let e = validate_timestamp("../evil").expect_err("Err");
    assert_eq!(e, TimestampError::WrongLength(7));
    assert_eq!(
        e.message("../evil"),
        "invalid timestamp \"../evil\": expected 15 characters (YYYYMMDD_HHMMSS), got 7"
    );
    let e = validate_timestamp("2024010a_12000b").expect_err("Err");
    assert_eq!(e, TimestampError::NotADigit(7));
    assert_eq!(
        e.message("2024010a_12000b"),
        "invalid timestamp \"2024010a_12000b\": character at position 7 is not an ASCII digit"
    );
    let e = validate_timestamp("20240101-120000").expect_err("Err");
    assert_eq!(e, TimestampError::WrongSeparator(b'-'));
    assert_eq!(
        e.message("20240101-120000"),
        "invalid timestamp \"20240101-120000\": character at position 8 must be '_', got '-'"
    );
    // A digit is missed before a wrong separator is.
    assert_eq!(validate_timestamp("20240101-12000x"), Err(TimestampError::NotADigit(14)));
    // The length counts bytes.
    assert_eq!(validate_timestamp("2024010\u{e9}_12000"), Err(TimestampError::NotADigit(7)));
    assert_eq!(validate_timestamp("2024010\u{e9}_120000"), Err(TimestampError::WrongLength(16)));
}

// ---------------------------------------------------------------------------
// full_snapshot_name
// ---------------------------------------------------------------------------

#[test]
fn test_full_snapshot_name_has_full_prefix() {
    let name = full_snapshot_name("20240101_120000").expect("valid timestamp");
    assert!(name.starts_with("full_"), "expected 'full_' prefix, got {:?}", name);
}

#[test]
fn test_full_snapshot_name_contains_timestamp() {
    let ts = "20240101_120000";
    let name = full_snapshot_name(ts).expect("valid timestamp");
    assert!(name.contains(ts), "expected name to contain timestamp {:?}, got {:?}", ts, name);
}

#[test]
fn test_full_snapshot_name_exact_format() {
    assert_eq!(
        full_snapshot_name("20240101_120000").expect("valid timestamp"),
        "full_20240101_120000"
    );
}

#[test]
fn test_full_snapshot_name_with_empty_ts() {
    assert!(full_snapshot_name("").is_err(), "empty timestamp should return Err");
}

#[test]
fn test_full_snapshot_name_rejects_invalid_ts() {
    assert!(full_snapshot_name("../evil").is_err(), "path traversal string should return Err");
    assert!(full_snapshot_name("not-a-timestamp").is_err(), "non-timestamp string should return Err");
}

// ---------------------------------------------------------------------------
// incr_snapshot_name
// ---------------------------------------------------------------------------

#[test]
fn test_incr_snapshot_name_has_incr_prefix() {
    let name = incr_snapshot_name("20240101_120000").expect("valid timestamp");
    assert!(name.starts_with("incr_"), "expected 'incr_' prefix, got {:?}", name);
}

#[test]
fn test_incr_snapshot_name_contains_timestamp() {
    let ts = "20240101_120000";
    let name = incr_snapshot_name(ts).expect("valid timestamp");
    assert!(name.contains(ts), "expected name to contain timestamp {:?}, got {:?}", ts, name);
}

#[test]
fn test_incr_snapshot_name_exact_format() {
    assert_eq!(
        incr_snapshot_name("20240101_120000").expect("valid timestamp"),
        "incr_20240101_120000"
    );
}

#[test]
fn test_incr_snapshot_name_with_empty_ts() {
    assert!(incr_snapshot_name("").is_err(), "empty timestamp should return Err");
}

#[test]
fn test_incr_snapshot_name_rejects_invalid_ts() {
    assert!(incr_snapshot_name("../evil").is_err(), "path traversal string should return Err");
    assert!(incr_snapshot_name("not-a-timestamp").is_err(), "non-timestamp string should return Err");
}

// ---------------------------------------------------------------------------
// snapshots_dir
// ---------------------------------------------------------------------------

#[test]
fn test_snapshots_dir_appends_snapshots_segment() {
    let dir = snapshots_dir("/mnt/b");
    assert_eq!(PathBuf::from(dir), PathBuf::from("/mnt/b/snapshots"));
}

#[test]
fn test_snapshots_dir_with_trailing_slash_in_backup_path() {
    let dir = snapshots_dir("/mnt/b/");
    assert_eq!(PathBuf::from(dir), PathBuf::from("/mnt/b/snapshots"));
}

#[test]
fn test_snapshots_dir_with_relative_path() {
    let dir = snapshots_dir("mnt/b");
    assert_eq!(PathBuf::from(dir), PathBuf::from("mnt/b/snapshots"));
}

// ---------------------------------------------------------------------------
// current_symlink
// ---------------------------------------------------------------------------

#[test]
fn test_current_symlink_appends_current_segment() {
    let link = current_symlink("/mnt/b");
    assert_eq!(PathBuf::from(link), PathBuf::from("/mnt/b/current"));
}

#[test]
fn test_current_symlink_with_trailing_slash() {
    let link = current_symlink("/mnt/b/");
    assert_eq!(PathBuf::from(link), PathBuf::from("/mnt/b/current"));
}

#[test]
fn test_current_symlink_with_relative_path() {
    let link = current_symlink("mnt/b");
    assert_eq!(PathBuf::from(link), PathBuf::from("mnt/b/current"));
}
