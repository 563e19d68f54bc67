//! The mount table and the startup validations.

use btrshot::cmd::{ExitStatus, Outcome, Output};
use btrshot::config::{Config, GpgConfig, PathsConfig, S3Config, ScheduleConfig, StateConfig};
use btrshot::validation::{
    parse_proc_mounts, path_is_on_btrfs, validate_all, validate_backup_fs, validate_source, ValidationError,
    ValidationFailure, ValidationReply, ValidationStage,
};

fn exited(code: Option<i32>, stderr: &str) -> Outcome {
    Outcome::Exited(Output {
        status: ExitStatus { code, signal: None },
        stdout: Vec::new(),
        stderr: stderr.as_bytes().to_vec(),
    })
}

/// What `btrfs subvolume show` does where the path is no subvolume.
fn show_fails(path: &str) -> Outcome {
    exited(Some(1), &format!("ERROR: not a subvolume: {path}\n"))
}

const MOUNTS: &str = "overlay / overlay rw,relatime 0 0\n\
                      tmpfs /tmp tmpfs rw,nosuid,nodev 0 0\n\
                      /dev/sdb1 /mnt/backup btrfs rw,relatime 0 0\n";

// ---------------------------------------------------------------------------
// validate_source
// ---------------------------------------------------------------------------

#[test]
fn test_validate_source_nonexistent_path_returns_err() {
    let path = "/nonexistent/path/that/does/not/exist";
    let result = validate_source(path).finish(show_fails(path));
    assert!(result.is_err(), "a nonexistent path should fail validate_source");
}

#[test]
fn test_validate_source_regular_directory_returns_err() {
    let path = "/tmp/.tmpAb12Cd";
    let result = validate_source(path).finish(show_fails(path));
    assert!(result.is_err(), "a plain directory should not be a valid btrfs subvolume");
}

#[test]
fn test_validate_source_error_contains_path() {
    let path = "/nonexistent/subvolume";
    let err = validate_source(path)
        .finish(Outcome::NotSpawned("No such file or directory (os error 2)".to_owned()))
        .expect_err("should be Err");
    let msg = err.message();
    assert!(
        msg.contains("/nonexistent/subvolume"),
        "error message should mention the path; got: {msg}"
    );
    assert_eq!(
        msg,
        "failed to spawn 'btrfs subvolume show' for path: /nonexistent/subvolume: \
         No such file or directory (os error 2)"
    );
    let err = validate_source(path).finish(exited(Some(1), " not a subvolume \n")).expect_err("should be Err");
    assert_eq!(
        err.message(),
        "path '/nonexistent/subvolume' is not a btrfs subvolume (exit code 1): not a subvolume"
    );
    let err = validate_source(path).finish(exited(None, "")).expect_err("should be Err");
    assert_eq!(
        err.message(),
        "path '/nonexistent/subvolume' is not a btrfs subvolume (exit code -1): "
    );
}

#[test]
fn source_is_validated_by_btrfs() {
    let check = validate_source("/mnt/a/data");
    assert_eq!(check.command.program, "btrfs");
    assert_eq!(check.command.args, vec!["subvolume", "show", "/mnt/a/data"]);
    assert!(check.command.env.is_empty());
    assert!(check.finish(exited(Some(0), "")).is_ok());
}

// ---------------------------------------------------------------------------
// parse_proc_mounts
// ---------------------------------------------------------------------------

#[test]
fn test_parse_proc_mounts_basic() {
    let contents = "sysfs /sys sysfs rw,nosuid 0 0\n\
                    /dev/sdb1 /mnt/backup btrfs rw,relatime 0 0\n";
    let mounts = parse_proc_mounts(contents);
    assert_eq!(mounts.len(), 2);
    assert_eq!(
        mounts[1],
        ("/dev/sdb1".to_string(), "/mnt/backup".to_string(), "btrfs".to_string())
    );
}

#[test]
fn test_parse_proc_mounts_skips_short_lines() {
    let contents = "incomplete_line\n\
                    /dev/sdb1 /mnt/backup btrfs rw 0 0\n";
    let mounts = parse_proc_mounts(contents);
    assert_eq!(mounts.len(), 1);
    assert_eq!(mounts[0].1, "/mnt/backup");
}

#[test]
fn test_parse_proc_mounts_empty_input() {
    let mounts = parse_proc_mounts("");
    assert!(mounts.is_empty());
}

// ---------------------------------------------------------------------------
// path_is_on_btrfs
// ---------------------------------------------------------------------------

#[test]
fn test_path_is_on_btrfs_exact_mount_match() {
    let mounts = vec![("dev/sdb".to_string(), "/mnt/backup".to_string(), "btrfs".to_string())];
    assert!(path_is_on_btrfs("/mnt/backup", &mounts));
}

#[test]
fn test_path_is_on_btrfs_child_path_match() {
    let mounts = vec![("dev/sdb".to_string(), "/mnt/backup".to_string(), "btrfs".to_string())];
    assert!(path_is_on_btrfs("/mnt/backup/snapshots", &mounts));
}

#[test]
fn test_path_is_on_btrfs_wrong_fs_type_returns_false() {
    let mounts = vec![("dev/sdc".to_string(), "/mnt/backup".to_string(), "ext4".to_string())];
    assert!(!path_is_on_btrfs("/mnt/backup", &mounts));
}

#[test]
fn test_path_is_on_btrfs_no_matching_mount_returns_false() {
    let mounts = vec![("dev/sdb".to_string(), "/mnt/other".to_string(), "btrfs".to_string())];
    assert!(!path_is_on_btrfs("/mnt/backup", &mounts));
}

#[test]
fn test_path_is_on_btrfs_prefix_overlap_does_not_match() {
    let mounts = vec![("dev/sdb".to_string(), "/mnt/backup".to_string(), "btrfs".to_string())];
    assert!(!path_is_on_btrfs("/mnt/back", &mounts));
}

#[test]
fn test_path_is_on_btrfs_multiple_mounts_picks_btrfs() {
    let mounts = vec![
        ("dev/sda".to_string(), "/".to_string(), "ext4".to_string()),
        ("dev/sdb".to_string(), "/mnt/backup".to_string(), "btrfs".to_string()),
    ];
    assert!(path_is_on_btrfs("/mnt/backup", &mounts));
}

#[test]
fn test_path_is_on_btrfs_nested_mounts_uses_longest_prefix() {
    let mounts = vec![
        ("dev/sdb".to_string(), "/mnt/backup".to_string(), "ext4".to_string()),
        ("dev/sdc".to_string(), "/mnt/backup/btrfs_sub".to_string(), "btrfs".to_string()),
    ];
    assert!(path_is_on_btrfs("/mnt/backup/btrfs_sub/data", &mounts));
    assert!(!path_is_on_btrfs("/mnt/backup/other", &mounts));
}

#[test]
fn the_last_of_two_mounts_at_one_place_counts() {
    let ext4 = ("dev/sda".to_string(), "/mnt/b".to_string(), "ext4".to_string());
    let btrfs = ("dev/sdb".to_string(), "/mnt/b".to_string(), "btrfs".to_string());
    assert!(path_is_on_btrfs("/mnt/b/x", &vec![ext4.clone(), btrfs.clone()]));
    assert!(!path_is_on_btrfs("/mnt/b/x", &vec![btrfs, ext4]));
}

// ---------------------------------------------------------------------------
// validate_backup_fs
// ---------------------------------------------------------------------------

#[test]
fn test_validate_backup_fs_non_btrfs_path_returns_err() {
    let result = validate_backup_fs("/tmp/.tmpAb12Cd").finish(Ok(MOUNTS.to_owned()));
    assert!(result.is_err(), "a non-btrfs path should fail validate_backup_fs");
}

#[test]
fn test_validate_backup_fs_error_contains_path() {
    let path = "/tmp/.tmpAb12Cd";
    let err = validate_backup_fs(path).finish(Ok(MOUNTS.to_owned())).expect_err("should be Err");
    let msg = err.message();
    assert!(msg.contains(path), "error message should mention the path; got: {msg}");
    assert_eq!(
        msg,
        "backup path '/tmp/.tmpAb12Cd' is not on a btrfs filesystem; \
         Disk B must be formatted as btrfs to receive snapshots"
    );
}

#[test]
fn backup_fs_is_looked_up_in_proc_mounts() {
    let check = validate_backup_fs("/mnt/backup/deep");
    assert_eq!(check.mounts_file, "/proc/mounts");
    assert!(check.finish(Ok(MOUNTS.to_owned())).is_ok());
    let err = validate_backup_fs("/mnt/backup").finish(Err("denied".to_owned())).expect_err("should be Err");
    assert_eq!(
        err.message(),
        "failed to read /proc/mounts for filesystem validation: failed to read /proc/mounts: denied"
    );
}

// ---------------------------------------------------------------------------
// validate_all
// ---------------------------------------------------------------------------

fn config(backup_path: &str) -> Config {
    Config {
        paths: PathsConfig {
            source_path: "/mnt/a".to_owned(),
            source_subvolume: "data".to_owned(),
            backup_path: backup_path.to_owned(),
        },
        s3: S3Config { bucket: "b".to_owned(), retention_count: 10, aws_profile: None },
        gpg: GpgConfig { public_key_file: "/etc/key.pub".to_owned() },
        schedule: ScheduleConfig {
            check_interval: 7200,
            full_backup_interval: 604_800,
            incremental_interval: 86400,
        },
        state: StateConfig { state_dir: "/var/lib/btrshot".to_owned() },
    }
}

#[test]
fn both_disks_are_validated() {
    let mut v = validate_all(&config("/mnt/backup"));
    assert_eq!(v.stage, ValidationStage::Source);
    assert_eq!(v.source.command.args, vec!["subvolume", "show", "/mnt/a/data"]);
    v.advance(ValidationReply::Mounts(Ok(MOUNTS.to_owned())));
    assert_eq!(v.stage, ValidationStage::Source, "the source comes first");
    v.advance(ValidationReply::Source(exited(Some(0), "")));
    assert_eq!(v.stage, ValidationStage::Mounts);
    v.advance(ValidationReply::Mounts(Ok(MOUNTS.to_owned())));
    assert_eq!(v.stage, ValidationStage::Done);
    assert!(v.finish().is_ok());
}

#[test]
fn the_first_failed_validation_is_reported() {
    let mut v = validate_all(&config("/mnt/backup"));
    v.advance(ValidationReply::Source(exited(Some(1), "no")));
    assert_eq!(v.stage, ValidationStage::Done);
    let e = v.finish().expect_err("Err");
    assert!(matches!(e, ValidationFailure::Source(ValidationError::NotSubvolume { code: 1, .. })));
    assert_eq!(
        e.message(),
        "source subvolume validation failed: path '/mnt/a/data' is not a btrfs subvolume (exit code 1): no"
    );

    let mut v = validate_all(&config("/tmp/b"));
    v.advance(ValidationReply::Source(exited(Some(0), "")));
    v.advance(ValidationReply::Mounts(Ok(MOUNTS.to_owned())));
    let e = v.finish().expect_err("Err");
    assert!(matches!(e, ValidationFailure::Backup(ValidationError::NotBtrfs { .. })));
    assert!(e.message().starts_with("backup filesystem validation failed: backup path '/tmp/b' is not"));
}

// ---------------------------------------------------------------------------
// Config
// ---------------------------------------------------------------------------

#[test]
fn test_source_subvolume_path() {
    assert_eq!(config("/mnt/b").source_subvolume_path(), "/mnt/a/data");
}

#[test]
fn absolute_subvolume_replaces_the_source_path() {
    let mut c = config("/mnt/b");
    c.paths.source_subvolume = "/elsewhere".to_owned();
    assert_eq!(c.source_subvolume_path(), "/elsewhere");
}
