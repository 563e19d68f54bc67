//! Names, listings and retention.

use btrshot::backup::s3::{
    aws_env_vars, expired_objects, is_valid_s3_object_name, is_valid_snapshot_name, objects_to_delete,
    parse_s3_ls_output,
};
use btrshot::path::components_of;
use btrshot::snapshot::{full_snapshot_name, incr_snapshot_name, timestamp_at};

// ---------------------------------------------------------------------------
// parse_s3_ls_output
// ---------------------------------------------------------------------------

#[test]
fn test_parse_s3_ls_output_standard_lines() {
    let output = "\
2024-01-01 12:00:00      12345 full_20240101_120000.tar.gpg\n\
2024-01-02 08:00:00      12345 incr_20240102_080000.tar.gpg\n\
2024-01-03 09:00:00      12345 full_20240103_090000.tar.gpg\n";

    let names = parse_s3_ls_output(output);
    assert_eq!(
        names,
        vec![
            "full_20240101_120000.tar.gpg",
            "incr_20240102_080000.tar.gpg",
            "full_20240103_090000.tar.gpg",
        ]
    );
}

#[test]
fn test_parse_s3_ls_output_empty_string() {
    let names = parse_s3_ls_output("");
    assert!(names.is_empty(), "empty input should yield empty list");
}

#[test]
fn test_parse_s3_ls_output_skips_short_lines() {
    let output = "\n\n2024-01-01 12:00:00      12345 full_20240101_120000.tar.gpg\n\n";
    let names = parse_s3_ls_output(output);
    assert_eq!(names, vec!["full_20240101_120000.tar.gpg"]);
}

#[test]
fn test_parse_s3_ls_output_single_line() {
    let output = "2024-01-01 12:00:00      99999 full_20240101_120000.tar.gpg\n";
    let names = parse_s3_ls_output(output);
    assert_eq!(names, vec!["full_20240101_120000.tar.gpg"]);
}

#[test]
fn test_parse_s3_ls_output_extra_whitespace() {
    let output = "2024-01-01  12:00:00   99999  full_20240101_120000.tar.gpg\n";
    let names = parse_s3_ls_output(output);
    assert_eq!(names, vec!["full_20240101_120000.tar.gpg"]);
}

#[test]
fn words_behind_the_object_name_are_ignored() {
    let names = parse_s3_ls_output("a b c d e\r\n  PRE dir/\nw x y z");
    assert_eq!(names, vec!["d", "z"]);
}

// ---------------------------------------------------------------------------
// objects_to_delete
// ---------------------------------------------------------------------------

#[test]
fn test_objects_to_delete_within_retention_returns_empty() {
    let objects: Vec<String> = vec![
        "full_20240101_120000.tar.gpg".to_owned(),
        "incr_20240102_080000.tar.gpg".to_owned(),
    ];
    let to_delete = objects_to_delete(&objects, 10);
    assert!(to_delete.is_empty(), "within retention: nothing should be deleted");
}

#[test]
fn test_objects_to_delete_exactly_at_retention_returns_empty() {
    let objects: Vec<String> = (0..3).map(|i| format!("full_2024010{}_120000.tar.gpg", i + 1)).collect();
    let to_delete = objects_to_delete(&objects, 3);
    assert!(to_delete.is_empty(), "at exact retention count: nothing should be deleted");
}

#[test]
fn test_objects_to_delete_one_excess_returns_oldest() {
    let objects: Vec<String> = vec![
        "full_20240103_090000.tar.gpg".to_owned(),
        "full_20240101_120000.tar.gpg".to_owned(),
        "incr_20240102_080000.tar.gpg".to_owned(),
    ];
    let to_delete = objects_to_delete(&objects, 2);
    assert_eq!(to_delete.len(), 1);
    assert_eq!(to_delete[0], "full_20240101_120000.tar.gpg");
}

#[test]
fn test_objects_to_delete_multiple_excess() {
    let objects: Vec<String> = vec![
        "full_20240104_120000.tar.gpg".to_owned(),
        "full_20240101_120000.tar.gpg".to_owned(),
        "full_20240102_120000.tar.gpg".to_owned(),
        "full_20240103_120000.tar.gpg".to_owned(),
    ];
    let to_delete = objects_to_delete(&objects, 2);
    assert_eq!(to_delete.len(), 2);
    assert_eq!(to_delete[0], "full_20240101_120000.tar.gpg");
    assert_eq!(to_delete[1], "full_20240102_120000.tar.gpg");
}

#[test]
fn test_objects_to_delete_zero_retention_returns_all() {
    let objects: Vec<String> = vec![
        "full_20240102_120000.tar.gpg".to_owned(),
        "full_20240101_120000.tar.gpg".to_owned(),
    ];
    let mut to_delete = objects_to_delete(&objects, 0);
    to_delete.sort_unstable();
    assert_eq!(
        to_delete,
        vec!["full_20240101_120000.tar.gpg", "full_20240102_120000.tar.gpg"]
    );
}

#[test]
fn test_objects_to_delete_empty_list() {
    let to_delete = objects_to_delete(&[], 5);
    assert!(to_delete.is_empty(), "empty list should yield empty delete list");
}

#[test]
fn test_objects_to_delete_mixed_full_and_incr() {
    let objects: Vec<String> = vec![
        "incr_20240103_090000.tar.gpg".to_owned(),
        "full_20240101_120000.tar.gpg".to_owned(),
        "incr_20240102_080000.tar.gpg".to_owned(),
    ];
    let to_delete = objects_to_delete(&objects, 2);
    assert_eq!(to_delete.len(), 1);
    assert_eq!(to_delete[0], "full_20240101_120000.tar.gpg");
}

#[test]
fn objects_are_deleted_in_the_order_of_their_names() {
    let objects: Vec<String> = ["b", "a", "c", "a"].map(String::from).to_vec();
    assert_eq!(objects_to_delete(&objects, 1), vec!["a", "a", "b"]);
}

#[test]
fn only_object_names_count_towards_retention() {
    let listing = "\
2024-01-03 12:00:00 1 full_20240103_120000.tar.gpg\n\
2024-01-01 12:00:00 1 README.md\n\
2024-01-01 12:00:00 1 full_20240101_120000.tar.gpg\n\
                           PRE snapshots/\n\
2024-01-02 12:00:00 1 full_20240102_120000.tar.gpg\n";
    assert_eq!(
        expired_objects(listing, 1),
        vec!["full_20240101_120000.tar.gpg", "full_20240102_120000.tar.gpg"]
    );
    assert_eq!(expired_objects(listing, 2), vec!["full_20240101_120000.tar.gpg"]);
    assert!(expired_objects(listing, 3).is_empty());
    assert!(expired_objects("", 0).is_empty());
}

#[test]
fn the_oldest_objects_of_either_kind_expire() {
    let listing = "\
2024-01-01 12:00:00 1 incr_20240101_120000.tar.gpg\n\
2024-01-03 09:00:00 1 full_20240103_090000.tar.gpg\n";
    assert_eq!(expired_objects(listing, 1), vec!["incr_20240101_120000.tar.gpg"]);
    let names = [
        "incr_20240105_000000.tar.gpg",
        "full_20240104_000000.tar.gpg",
        "incr_20240102_000000.tar.gpg",
        "incr_20240104_000000.tar.gpg",
        "full_20240101_235959.tar.gpg",
        "incr_20231231_235959.tar.gpg",
    ];
    let listing: String = names.iter().map(|n| format!("d t 1 {n}\n")).collect();
    let oldest_first = [
        "incr_20231231_235959.tar.gpg",
        "full_20240101_235959.tar.gpg",
        "incr_20240102_000000.tar.gpg",
        "full_20240104_000000.tar.gpg",
        "incr_20240104_000000.tar.gpg",
        "incr_20240105_000000.tar.gpg",
    ];
    for retention in 0..8 {
        let excess = names.len().saturating_sub(retention);
        assert_eq!(expired_objects(&listing, retention), oldest_first[..excess].to_vec());
    }
}

// ---------------------------------------------------------------------------
// is_valid_snapshot_name
// ---------------------------------------------------------------------------

#[test]
fn test_is_valid_snapshot_name_valid_full() {
    assert!(is_valid_snapshot_name("full_20240101_120000"));
}

#[test]
fn test_is_valid_snapshot_name_valid_incr() {
    assert!(is_valid_snapshot_name("incr_20241231_235959"));
}

#[test]
fn test_is_valid_snapshot_name_wrong_prefix() {
    assert!(!is_valid_snapshot_name("snap_20240101_120000"));
}

#[test]
fn test_is_valid_snapshot_name_path_traversal() {
    assert!(!is_valid_snapshot_name("../etc/passwd"));
    assert!(!is_valid_snapshot_name("full_20240101_120000/../../etc"));
}

#[test]
fn test_is_valid_snapshot_name_with_tar_gpg_suffix_is_invalid() {
    assert!(!is_valid_snapshot_name("full_20240101_120000.tar.gpg"));
}

#[test]
fn test_is_valid_snapshot_name_empty_string() {
    assert!(!is_valid_snapshot_name(""));
}

#[test]
fn test_is_valid_snapshot_name_non_digit_date() {
    assert!(!is_valid_snapshot_name("full_2024010x_120000"));
}

#[test]
fn snapshot_names_at_the_edges() {
    assert!(!is_valid_snapshot_name("full_20240101-120000"));
    assert!(!is_valid_snapshot_name("full-20240101_120000"));
    assert!(!is_valid_snapshot_name("full_20240101_12000x"));
    assert!(!is_valid_snapshot_name("full__0240101_120000"));
    assert!(!is_valid_snapshot_name("full_2024010\u{e9}_12000"));
    assert!(!is_valid_snapshot_name("full_2024010\u{e9}_120000"));
    assert!(!is_valid_snapshot_name("\u{e9}ll_20240101_120000"));
    assert!(is_valid_snapshot_name("full_99999999_999999"));
}

// ---------------------------------------------------------------------------
// is_valid_s3_object_name
// ---------------------------------------------------------------------------

#[test]
fn test_is_valid_s3_object_name_valid() {
    assert!(is_valid_s3_object_name("full_20240101_120000.tar.gpg"));
    assert!(is_valid_s3_object_name("incr_20241231_235959.tar.gpg"));
}

#[test]
fn test_is_valid_s3_object_name_missing_suffix() {
    assert!(!is_valid_s3_object_name("full_20240101_120000"));
}

#[test]
fn test_is_valid_s3_object_name_unexpected_name() {
    assert!(!is_valid_s3_object_name("README.md"));
    assert!(!is_valid_s3_object_name("../../etc/passwd.tar.gpg"));
}

// ---------------------------------------------------------------------------
// aws_env_vars
// ---------------------------------------------------------------------------

#[test]
fn test_aws_env_vars_none_returns_empty() {
    let vars = aws_env_vars(&None);
    assert!(vars.is_empty());
}

#[test]
fn test_aws_env_vars_some_returns_aws_profile() {
    let vars = aws_env_vars(&Some("my-profile".to_owned()));
    assert_eq!(vars.len(), 1);
    assert_eq!(vars[0].0, "AWS_PROFILE");
    assert_eq!(vars[0].1, "my-profile");
}

// ---------------------------------------------------------------------------
// Names and retention together
// ---------------------------------------------------------------------------

#[test]
fn names_of_backups_are_snapshot_names() {
    for secs in [0, 951_782_400, 1_706_000_000, 253_402_300_799] {
        let ts = timestamp_at(secs);
        for name in [full_snapshot_name(&ts).expect("valid"), incr_snapshot_name(&ts).expect("valid")] {
            assert!(is_valid_snapshot_name(&name), "{name}");
            assert!(!is_valid_s3_object_name(&name), "{name}");
            assert!(is_valid_s3_object_name(&format!("{name}.tar.gpg")), "{name}");
            assert_eq!(components_of(&name), vec![name.clone()]);
            assert_eq!(components_of(&format!("{name}/")), vec![name.clone()]);
        }
    }
}

#[test]
fn later_backups_have_later_names() {
    let seconds = [0, 1, 59, 60, 86_399, 86_400, 951_782_399, 951_782_400, 1_706_000_000, 253_402_300_799];
    for pair in seconds.windows(2) {
        let (a, b) = (timestamp_at(pair[0]), timestamp_at(pair[1]));
        assert!(a < b, "{a} {b}");
        assert!(full_snapshot_name(&a).expect("valid") < full_snapshot_name(&b).expect("valid"));
    }
}

#[test]
fn retention_keeps_the_last_objects_by_name() {
    let objects: Vec<String> =
        (0..9).map(|i| format!("full_2024010{}_120000.tar.gpg", 9 - (i * 4) % 9)).collect();
    for retention in 0..12 {
        let gone = objects_to_delete(&objects, retention);
        let mut kept: Vec<String> = objects.iter().filter(|o| !gone.contains(o)).cloned().collect();
        kept.sort_unstable();
        assert_eq!(kept.len(), retention.min(objects.len()));
        assert_eq!(gone.len() + kept.len(), objects.len());
        if let (Some(last_gone), Some(first_kept)) = (gone.last(), kept.first()) {
            assert!(last_gone < first_kept);
        }
    }
}
