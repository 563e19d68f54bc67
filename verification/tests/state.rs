//! The state file and the timestamp files, on a model of a disk.

use std::collections::BTreeMap;
use std::time::{Duration, SystemTime};

use btrshot::clock::{current_unix_ts, whole_seconds, Clock};
use btrshot::state::{
    atomic_write, AtomicWrite, FileRead, Operation, State, StateError, Timestamps, TimestampsStage, WriteError,
    WriteStage,
};

const NO_SUCH_FILE: &str = "No such file or directory (os error 2)";

/// A disk with one directory.
struct Disk {
    dir: String,
    files: BTreeMap<String, String>,
}

impl Disk {
    fn new() -> Disk {
        Disk { dir: "/tmp/.tmpAb12Cd".to_owned(), files: BTreeMap::new() }
    }

    fn put(&mut self, name: &str, content: &str) {
        self.files.insert(format!("{}/{name}", self.dir), content.to_owned());
    }

    fn read(&self, path: &str) -> FileRead {
        match self.files.get(path) {
            Some(text) => FileRead::Text(text.clone()),
            None => FileRead::NotFound,
        }
    }

    /// Does the current step of a write.
    fn step(&mut self, w: &AtomicWrite) -> Result<(), String> {
        match w.stage {
            WriteStage::Create => {
                let inside = w.tmp_path.strip_prefix(&format!("{}/", self.dir)).is_some();
                if !inside {
                    return Err(NO_SUCH_FILE.to_owned());
                }
                self.files.insert(w.tmp_path.clone(), String::new());
            }
            WriteStage::Fill => {
                self.files.insert(w.tmp_path.clone(), w.content.clone());
            }
            WriteStage::Sync | WriteStage::Done => {}
            WriteStage::Rename => {
                let text = self.files.remove(&w.tmp_path).expect("tmp file");
                self.files.insert(w.path.clone(), text);
            }
        }
        Ok(())
    }

    fn perform(&mut self, mut w: AtomicWrite) -> Result<(), WriteError> {
        while w.stage != WriteStage::Done {
            let reply = self.step(&w);
            w.advance(reply);
        }
        w.finish()
    }
}

fn write_state(disk: &mut Disk, dir: &str, state: State) -> Result<(), String> {
    let w = state.write(dir).map_err(|e| e.message())?;
    disk.perform(w).map_err(|e| e.message())
}

fn read_state(disk: &Disk) -> Result<State, StateError> {
    let request = State::read(&disk.dir);
    let file = disk.read(&request.path);
    request.finish(file)
}

fn read_timestamps(disk: &Disk) -> Result<Timestamps, StateError> {
    let mut request = Timestamps::read(&disk.dir);
    loop {
        let path = match request.stage {
            TimestampsStage::Full => request.full_path.clone(),
            TimestampsStage::Incremental => request.incremental_path.clone(),
            TimestampsStage::Done => return request.finish(),
        };
        request.advance(disk.read(&path));
    }
}

// ---------------------------------------------------------------------------
// State serialisation / deserialisation
// ---------------------------------------------------------------------------

#[test]
fn test_state_parse_idle() {
    assert_eq!(State::parse("idle::1706000000").expect("valid"), State::Idle);
}

#[test]
fn test_state_parse_in_progress_full() {
    assert_eq!(
        State::parse("in_progress:full:1706000000").expect("valid"),
        State::InProgress(Operation::Full)
    );
}

#[test]
fn test_state_parse_in_progress_incremental() {
    assert_eq!(
        State::parse("in_progress:incremental:1706000000").expect("valid"),
        State::InProgress(Operation::Incremental)
    );
}

#[test]
fn test_state_parse_in_progress_s3_upload() {
    assert_eq!(
        State::parse("in_progress:s3_upload:1706000000").expect("valid"),
        State::InProgress(Operation::S3Upload)
    );
}

#[test]
fn test_state_parse_unknown_returns_err() {
    assert!(State::parse("unknown_value::1706000000").is_err());
}

#[test]
fn test_state_to_file_string_round_trip() {
    let ts = 1_706_000_000_u64;
    let cases = [
        State::Idle,
        State::InProgress(Operation::Full),
        State::InProgress(Operation::Incremental),
        State::InProgress(Operation::S3Upload),
    ];
    for state in cases {
        let s = state.to_file_string(ts);
        let parsed = State::parse(&s).expect("round-trip parse");
        assert_eq!(parsed, state, "round-trip failed for {:?}", state);
    }
}

#[test]
fn test_state_to_file_string_idle_format() {
    let s = State::Idle.to_file_string(1_706_000_000);
    assert_eq!(s, "idle::1706000000");
}

#[test]
fn test_state_to_file_string_in_progress_full_format() {
    let s = State::InProgress(Operation::Full).to_file_string(1_706_000_000);
    assert_eq!(s, "in_progress:full:1706000000");
}

#[test]
fn states_with_missing_and_extra_fields() {
    assert_eq!(State::parse("idle").expect("valid"), State::Idle);
    assert_eq!(State::parse("idle:what:ever:1").expect("valid"), State::Idle);
    assert_eq!(State::parse("in_progress:full").expect("valid"), State::InProgress(Operation::Full));
    assert_eq!(State::parse("in_progress:full:a:b").expect("valid"), State::InProgress(Operation::Full));
    for bad in ["", ":", "in_progress", "in_progress::1", "in_progress:fullx:1", "Idle::1", " idle::1"] {
        assert!(State::parse(bad).is_err(), "{bad:?}");
    }
    assert_eq!(
        State::parse("a\"b").expect_err("Err").message(),
        "unrecognised state value: \"a\\\"b\""
    );
    assert_eq!(State::Idle.to_file_string(u64::MAX), "idle::18446744073709551615");
    assert_eq!(State::InProgress(Operation::S3Upload).to_file_string(0), "in_progress:s3_upload:0");
}

// ---------------------------------------------------------------------------
// State file I/O
// ---------------------------------------------------------------------------

#[test]
fn test_state_read_missing_file_returns_idle() {
    let disk = Disk::new();
    let state = read_state(&disk).expect("read should succeed");
    assert_eq!(state, State::Idle);
}

#[test]
fn test_state_write_and_read_idle() {
    let mut disk = Disk::new();
    let dir = disk.dir.clone();
    write_state(&mut disk, &dir, State::Idle).expect("write");
    assert_eq!(read_state(&disk).expect("read"), State::Idle);
}

#[test]
fn test_state_write_and_read_in_progress_full() {
    let mut disk = Disk::new();
    let dir = disk.dir.clone();
    write_state(&mut disk, &dir, State::InProgress(Operation::Full)).expect("write");
    assert_eq!(read_state(&disk).expect("read"), State::InProgress(Operation::Full));
}

#[test]
fn test_state_write_and_read_in_progress_incremental() {
    let mut disk = Disk::new();
    let dir = disk.dir.clone();
    write_state(&mut disk, &dir, State::InProgress(Operation::Incremental)).expect("write");
    assert_eq!(read_state(&disk).expect("read"), State::InProgress(Operation::Incremental));
}

#[test]
fn test_state_write_and_read_in_progress_s3_upload() {
    let mut disk = Disk::new();
    let dir = disk.dir.clone();
    write_state(&mut disk, &dir, State::InProgress(Operation::S3Upload)).expect("write");
    assert_eq!(read_state(&disk).expect("read"), State::InProgress(Operation::S3Upload));
}

#[test]
fn test_state_read_error_on_invalid_content() {
    let mut disk = Disk::new();
    disk.put("state", "garbage_value");
    assert!(read_state(&disk).is_err());
}

#[test]
fn test_state_write_error_on_nonexistent_dir() {
    let mut disk = Disk::new();
    let result = write_state(&mut disk, "/nonexistent/directory", State::Idle);
    assert!(result.is_err());
    assert_eq!(
        result.expect_err("Err"),
        format!("failed to create tmp file: /nonexistent/directory/state.tmp: {NO_SUCH_FILE}")
    );
}

#[test]
fn test_state_read_whitespace_padded_file() {
    let mut disk = Disk::new();
    disk.put("state", "idle::1706000000\n");
    assert_eq!(read_state(&disk).expect("read"), State::Idle);
    disk.put("state", "\u{2003}\tin_progress:full:1 \r\n");
    assert_eq!(read_state(&disk).expect("read"), State::InProgress(Operation::Full));
}

#[test]
fn test_state_sequential_overwrite() {
    let mut disk = Disk::new();
    let dir = disk.dir.clone();
    write_state(&mut disk, &dir, State::InProgress(Operation::Full)).expect("write in_progress:full");
    write_state(&mut disk, &dir, State::Idle).expect("write idle");
    assert_eq!(read_state(&disk).expect("read"), State::Idle);
}

#[test]
fn unreadable_state_file() {
    let e = State::read("/var/lib/btrshot").finish(FileRead::Failed("denied".to_owned())).expect_err("Err");
    assert_eq!(e.message(), "failed to read state file: /var/lib/btrshot/state: denied");
}

#[test]
fn state_is_written_with_the_time() {
    let w = State::InProgress(Operation::Full).write_at("/s", Ok(42)).expect("Ok");
    assert_eq!(w.path, "/s/state");
    assert_eq!(w.tmp_path, "/s/state.tmp");
    assert_eq!(w.content, "in_progress:full:42");
    let e = State::Idle.write_at("/s", Err("early".to_owned())).expect_err("Err");
    assert_eq!(e.message(), "system clock is before the Unix epoch: early");
    let before = current_unix_ts().expect("clock");
    let w = State::Idle.write("/s").expect("Ok");
    let after = current_unix_ts().expect("clock");
    let ts: u64 = w.content.strip_prefix("idle::").expect("idle").parse().expect("number");
    assert!(before <= ts && ts <= after);
}

#[test]
fn write_failures_name_the_step() {
    for (stage, message) in [
        (WriteStage::Create, "failed to create tmp file: /s/name.tmp: why"),
        (WriteStage::Fill, "failed to write tmp file: /s/name.tmp: why"),
        (WriteStage::Sync, "failed to fsync tmp file: /s/name.tmp: why"),
        (WriteStage::Rename, "failed to rename /s/name.tmp to /s/name: why"),
    ] {
        let mut w = atomic_write("/s/name".to_owned(), "content".to_owned());
        while w.stage != stage {
            w.advance(Ok(()));
        }
        w.advance(Err("why".to_owned()));
        assert_eq!(w.stage, WriteStage::Done);
        w.advance(Err("later".to_owned()));
        assert_eq!(w.finish().expect_err("Err").message(), message);
    }
}

#[test]
fn the_temporary_file_takes_the_place_of_an_extension() {
    for (path, tmp_path) in [
        ("/s/state", "/s/state.tmp"),
        ("/s/notes.txt", "/s/notes.tmp"),
        ("/s/a.b.c", "/s/a.b.tmp"),
        ("/s/.hidden", "/s/.hidden.tmp"),
        ("/s.d/state", "/s.d/state.tmp"),
        ("/s/x.tmp", "/s/x.tmp"),
        ("/s/..", "/s/.."),
    ] {
        let w = atomic_write(path.to_owned(), "content".to_owned());
        assert_eq!((w.path.as_str(), w.tmp_path.as_str()), (path, tmp_path));
    }
}

#[test]
fn an_interrupted_write_leaves_the_old_state() {
    let mut disk = Disk::new();
    disk.put("state", "in_progress:full:1");
    let dir = disk.dir.clone();
    let mut w = State::Idle.write_at(&dir, Ok(2)).expect("Ok");
    while w.stage != WriteStage::Rename {
        assert_eq!(read_state(&disk).expect("read"), State::InProgress(Operation::Full));
        let reply = disk.step(&w);
        w.advance(reply);
    }
    assert_eq!(read_state(&disk).expect("read"), State::InProgress(Operation::Full));
    let reply = disk.step(&w);
    w.advance(reply);
    assert_eq!(read_state(&disk).expect("read"), State::Idle);
    assert_eq!(disk.files.len(), 1, "no temporary file is left");
}

// ---------------------------------------------------------------------------
// Timestamps I/O
// ---------------------------------------------------------------------------

#[test]
fn test_timestamps_read_both_missing_returns_none() {
    let disk = Disk::new();
    let ts = read_timestamps(&disk).expect("read");
    assert_eq!(ts, Timestamps { last_full: None, last_incremental: None });
}

#[test]
fn test_timestamps_write_full_and_read() {
    let mut disk = Disk::new();
    let w = Timestamps::write_full(&disk.dir, 1_700_000_000);
    disk.perform(w).expect("write");
    let ts = read_timestamps(&disk).expect("read");
    assert_eq!(ts.last_full, Some(1_700_000_000));
    assert_eq!(ts.last_incremental, None);
}

#[test]
fn test_timestamps_write_incremental_and_read() {
    let mut disk = Disk::new();
    let w = Timestamps::write_incremental(&disk.dir, 1_700_001_000);
    disk.perform(w).expect("write");
    let ts = read_timestamps(&disk).expect("read");
    assert_eq!(ts.last_full, None);
    assert_eq!(ts.last_incremental, Some(1_700_001_000));
}

#[test]
fn test_timestamps_write_both_and_read() {
    let mut disk = Disk::new();
    let w = Timestamps::write_full(&disk.dir, 1_700_000_000);
    disk.perform(w).expect("write full");
    let w = Timestamps::write_incremental(&disk.dir, 1_700_001_000);
    disk.perform(w).expect("write incr");
    let ts = read_timestamps(&disk).expect("read");
    assert_eq!(
        ts,
        Timestamps { last_full: Some(1_700_000_000), last_incremental: Some(1_700_001_000) }
    );
}

#[test]
fn test_timestamps_write_full_overwrites_previous() {
    let mut disk = Disk::new();
    let w = Timestamps::write_full(&disk.dir, 1_000);
    disk.perform(w).expect("write first");
    let w = Timestamps::write_full(&disk.dir, 2_000);
    disk.perform(w).expect("write second");
    let ts = read_timestamps(&disk).expect("read");
    assert_eq!(ts.last_full, Some(2_000));
}

#[test]
fn test_timestamps_read_invalid_content_returns_err() {
    let mut disk = Disk::new();
    disk.put("last_full_backup", "not_a_number");
    assert!(read_timestamps(&disk).is_err());
}

#[test]
fn test_timestamps_write_error_on_nonexistent_dir() {
    let mut disk = Disk::new();
    let w = Timestamps::write_full("/nonexistent/directory", 42);
    let result = disk.perform(w);
    assert!(result.is_err());
}

#[test]
fn test_timestamps_read_whitespace_padded_file() {
    let mut disk = Disk::new();
    disk.put("last_full_backup", "1700000000\n");
    let ts = read_timestamps(&disk).expect("read");
    assert_eq!(ts.last_full, Some(1_700_000_000));
}

#[test]
fn timestamps_at_the_limits() {
    let mut disk = Disk::new();
    disk.put("last_full_backup", "18446744073709551615");
    disk.put("last_incremental_backup", "+007");
    let ts = read_timestamps(&disk).expect("read");
    assert_eq!(ts, Timestamps { last_full: Some(u64::MAX), last_incremental: Some(7) });
    for bad in ["18446744073709551616", "", "-1", "+", "1 2", "0x10", "1_000"] {
        disk.put("last_incremental_backup", bad);
        assert!(read_timestamps(&disk).is_err(), "{bad:?}");
    }
}

#[test]
fn timestamp_messages() {
    let mut disk = Disk::new();
    disk.put("last_incremental_backup", " not a number ");
    assert_eq!(
        read_timestamps(&disk).expect_err("Err").message(),
        "failed to parse timestamp in /tmp/.tmpAb12Cd/last_incremental_backup: \"not a number\": \
         invalid digit found in string"
    );
    disk.put("last_incremental_backup", &"x".repeat(100));
    assert_eq!(
        read_timestamps(&disk).expect_err("Err").message(),
        format!(
            "failed to parse timestamp in /tmp/.tmpAb12Cd/last_incremental_backup: {:?}: invalid digit found in string",
            "x".repeat(64)
        )
    );
    for bad in ["", "+", "-1", "18446744073709551616", "1x"] {
        disk.put("last_incremental_backup", bad);
        let cause = bad.parse::<u64>().expect_err("no number").to_string();
        let message = read_timestamps(&disk).expect_err("Err").message();
        assert!(message.ends_with(&format!(": {bad:?}: {cause}")), "{message}");
    }
    let mut request = Timestamps::read("/s");
    request.advance(FileRead::Failed("denied".to_owned()));
    assert_eq!(request.stage, TimestampsStage::Done);
    assert_eq!(
        request.finish().expect_err("Err").message(),
        "failed to read timestamp file: /s/last_full_backup: denied"
    );
}

#[test]
fn timestamp_writes_leave_the_state() {
    let mut disk = Disk::new();
    let dir = disk.dir.clone();
    disk.put("state", "in_progress:full:1");
    for w in [
        Timestamps::write_full(&dir, 1),
        Timestamps::write_incremental(&dir, 2),
        Timestamps::write_full(&dir, 3),
    ] {
        disk.perform(w).expect("write");
        assert_eq!(read_state(&disk).expect("read"), State::InProgress(Operation::Full));
    }
}

// ---------------------------------------------------------------------------
// The clock
// ---------------------------------------------------------------------------

#[test]
fn full_test_current_unix_ts_is_positive() {
    let ts = current_unix_ts().expect("should return a timestamp");
    assert!(ts > 0, "Unix timestamp should be positive");
}

#[test]
fn full_test_current_unix_ts_is_recent() {
    let ts = current_unix_ts().expect("should return a timestamp");
    assert!(ts > 1_577_836_800, "Unix timestamp should be after 2020-01-01, got {ts}");
}

#[test]
fn incremental_test_current_unix_ts_is_positive() {
    let ts = current_unix_ts().expect("should return a timestamp");
    assert!(ts > 0, "Unix timestamp should be positive");
}

#[test]
fn incremental_test_current_unix_ts_is_recent() {
    let ts = current_unix_ts().expect("should return a timestamp");
    assert!(ts > 1_577_836_800, "Unix timestamp should be after 2020-01-01, got {ts}");
}

#[test]
fn both_readings_of_the_clock_agree() {
    let clock = Clock::read();
    let now = clock.now.expect("clock");
    let stamp = chrono::NaiveDateTime::parse_from_str(&clock.stamp, "%Y%m%d_%H%M%S").expect("stamp");
    assert_eq!(stamp.and_utc().timestamp() as u64, now);
}

#[test]
fn seconds_are_cut_off() {
    assert_eq!(whole_seconds(Ok(Duration::from_millis(1_999))), Ok(1));
    let early = SystemTime::UNIX_EPOCH - Duration::from_secs(1);
    let error = early.duration_since(SystemTime::UNIX_EPOCH).expect_err("early");
    assert_eq!(whole_seconds(Err(error.clone())), Err(error.to_string()));
    let later = SystemTime::UNIX_EPOCH + Duration::from_secs(1_706_000_000);
    assert_eq!(whole_seconds(later.duration_since(SystemTime::UNIX_EPOCH)), Ok(1_706_000_000));
}
