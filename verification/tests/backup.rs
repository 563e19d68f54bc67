//! Backups and uploads, conducted in a model of the two disks and the bucket.

use std::collections::{BTreeMap, BTreeSet};

use btrshot::backup::action::{Action, Reply};
use btrshot::backup::error::{BackupError, Context, Part};
use btrshot::backup::full::{delete_old_snapshots, full_backup_at, run_full_backup, CleanStage, FullStage};
use btrshot::backup::incremental::{incremental_backup_at, run_incremental_backup, IncrStage};
use btrshot::backup::s3::{run_s3_upload, S3Stage};
use btrshot::clock::Clock;
use btrshot::cmd::{Command, CommandError, Execution, ExitStatus, Outcome, Output, PipeReply, PipeStage, Pipeline};
use btrshot::config::{Config, GpgConfig, PathsConfig, S3Config, ScheduleConfig, StateConfig};
use btrshot::state::{AtomicWrite, FileRead, Operation, State, WriteError, WriteStage};

const NO_SUCH_FILE: &str = "No such file or directory (os error 2)";

/// Directories, files and links by path, and the objects in the bucket.
struct World {
    dirs: BTreeSet<String>,
    files: BTreeMap<String, String>,
    links: BTreeMap<String, String>,
    objects: BTreeSet<String>,
    /// Everything that was done.
    log: Vec<String>,
    /// Commands that start like this fail.
    broken: Option<String>,
    /// Whether there is a `btrfs`.
    has_btrfs: bool,
    /// The bucket that `objects` are in.
    bucket: String,
    time: u64,
}

impl World {
    fn new() -> World {
        let dirs = ["/var/lib/btrshot", "/mnt/a", "/mnt/a/data", "/mnt/b", "/mnt/b/snapshots"];
        World {
            dirs: dirs.iter().map(|d| d.to_string()).collect(),
            files: BTreeMap::from([("/etc/key.pub".to_owned(), String::new())]),
            links: BTreeMap::new(),
            objects: BTreeSet::new(),
            log: Vec::new(),
            broken: None,
            has_btrfs: true,
            bucket: "my-bucket".to_owned(),
            time: 1_706_000_000,
        }
    }

    fn clock(&mut self) -> Clock {
        self.time += 1;
        Clock { now: Ok(self.time), stamp: "20240123_085320".to_owned() }
    }

    fn parent(path: &str) -> &str {
        path.rsplit_once('/').map_or("", |(dir, _)| dir)
    }

    fn there(&self, path: &str) -> bool {
        self.dirs.contains(path) || self.files.contains_key(path) || self.links.contains_key(path)
    }

    fn state(&self, dir: &str) -> State {
        let request = State::read(dir);
        let file = match self.files.get(&request.path) {
            Some(text) => FileRead::Text(text.clone()),
            None => FileRead::NotFound,
        };
        request.finish(file).expect("readable state")
    }

    fn write(&mut self, mut w: AtomicWrite) -> Result<(), WriteError> {
        self.log.push(format!("write {} {}", w.path, w.content));
        while w.stage != WriteStage::Done {
            let reply = match w.stage {
                WriteStage::Create if !self.dirs.contains(World::parent(&w.tmp_path)) => {
                    Err(NO_SUCH_FILE.to_owned())
                }
                WriteStage::Rename => {
                    self.files.insert(w.path.clone(), w.content.clone());
                    Ok(())
                }
                _ => Ok(()),
            };
            w.advance(reply);
        }
        w.finish()
    }

    /// What a command does; the text is what it writes to stdout.
    fn effect(&mut self, c: &Command) -> Result<String, String> {
        let args: Vec<&str> = c.args.iter().map(String::as_str).collect();
        let prefix = format!("s3://{}/", self.bucket);
        match (c.program.as_str(), args.as_slice()) {
            ("btrfs", ["subvolume", "snapshot", "-r", from, to]) => {
                if !self.dirs.contains(*from) || self.there(to) {
                    return Err("ERROR: cannot snapshot".to_owned());
                }
                self.dirs.insert(to.to_string());
            }
            ("btrfs", ["subvolume", "delete", path]) => {
                if !self.dirs.remove(*path) {
                    return Err(format!("ERROR: Could not statfs: {path}"));
                }
            }
            ("btrfs", ["send", .., tmp]) if self.dirs.contains(*tmp) => {}
            ("btrfs", ["receive", dir]) if self.dirs.contains(*dir) => {
                self.dirs.insert(format!("{dir}/.snap_tmp"));
            }
            ("tar", ["-cf", "-", "-C", dir, name]) => {
                if !self.dirs.contains(&format!("{dir}/{}", name.trim_end_matches('/'))) {
                    return Err("tar: Cannot stat".to_owned());
                }
            }
            ("gpg", ["--encrypt", "--recipient-file", _, "--output", "-"]) => {}
            ("aws", ["s3", "cp", "-", uri]) => {
                self.objects.insert(uri.strip_prefix(&prefix).expect("bucket").to_owned());
            }
            ("aws", ["s3", "ls", uri]) if *uri == prefix => {
                return Ok(self.objects.iter().rev().map(|o| format!("2024-01-01 12:00:00 1 {o}\n")).collect());
            }
            ("aws", ["s3", "rm", uri]) => {
                assert!(self.objects.remove(uri.strip_prefix(&prefix).expect("bucket")));
            }
            other => return Err(format!("cannot do {other:?}")),
        }
        Ok(String::new())
    }

    fn run(&mut self, c: &Command) -> Outcome {
        let line = format!("{} {}", c.program, c.args.join(" "));
        self.log.push(line.clone());
        if c.program == "btrfs" && !self.has_btrfs {
            return Outcome::NotSpawned(NO_SUCH_FILE.to_owned());
        }
        let failed = self.broken.as_ref().is_some_and(|b| line.starts_with(b.as_str()));
        let result = if failed { Err("broken".to_owned()) } else { self.effect(c) };
        let (code, stdout, stderr) = match result {
            Ok(text) => (0, text, String::new()),
            Err(text) => (1, String::new(), text),
        };
        Outcome::Exited(Output {
            status: ExitStatus { code: Some(code), signal: None },
            stdout: stdout.into_bytes(),
            stderr: stderr.into_bytes(),
        })
    }

    fn pipe(&mut self, mut p: Pipeline) -> Result<(), CommandError> {
        let mut outputs: Vec<Option<Output>> = Vec::new();
        loop {
            let reply = match p.stage() {
                PipeStage::Spawn(i) => match self.run(p.command(i)) {
                    Outcome::NotSpawned(cause) => PipeReply::NotSpawned(cause),
                    Outcome::Exited(output) => {
                        outputs.push(Some(output));
                        PipeReply::Spawned
                    }
                },
                PipeStage::Kill(_) => PipeReply::Killed,
                PipeStage::Wait(i) => PipeReply::Waited(Ok(outputs[i].take().expect("waited once"))),
                PipeStage::Done => return p.finish(),
            };
            p.advance(reply);
        }
    }

    fn perform(&mut self, action: Action) -> Reply {
        match action {
            Action::Write(w) => Reply::Written(self.write(w)),
            Action::Run(command) => {
                let outcome = self.run(&command);
                Reply::Ran(Execution { command }.finish(outcome))
            }
            Action::Pipe(p) => Reply::Ran(self.pipe(p)),
            Action::Capture(command) => {
                let outcome = self.run(&command);
                Reply::Captured(btrshot::cmd::Capture { command }.finish(outcome))
            }
            Action::Rename { from, to } => {
                self.log.push(format!("rename {from} {to}"));
                if self.dirs.remove(&from) {
                    self.dirs.insert(to);
                    Reply::Done(Ok(()))
                } else {
                    Reply::Done(Err(NO_SUCH_FILE.to_owned()))
                }
            }
            Action::RemoveFile { path } => {
                self.log.push(format!("remove {path}"));
                Reply::Done(self.links.remove(&path).map(|_| ()).ok_or(NO_SUCH_FILE.to_owned()))
            }
            Action::Symlink { target, link } => {
                self.log.push(format!("symlink {target} {link}"));
                self.links.insert(link, target);
                Reply::Done(Ok(()))
            }
            Action::ProbeFile { path } => Reply::Found(self.files.contains_key(&path)),
            Action::ProbeTarget { path } | Action::ProbeEntry { path } => Reply::Found(self.there(&path)),
            Action::ListDir { path } => {
                if !self.dirs.contains(&path) {
                    return Reply::Listed(Err(NO_SUCH_FILE.to_owned()));
                }
                let prefix = format!("{path}/");
                let names = self.dirs.iter().filter_map(|d| d.strip_prefix(&prefix));
                Reply::Listed(Ok(names.map(|n| Ok(n.to_owned())).collect()))
            }
            Action::Stop => panic!("nothing to do"),
        }
    }

    fn upload(&mut self, config: &Config, name: &str) -> Result<(), BackupError> {
        let mut upload = run_s3_upload(config, name)?;
        while upload.stage() != S3Stage::Done {
            let reply = self.perform(upload.action());
            let now = self.clock().now;
            upload.advance(reply, now);
        }
        upload.finish()
    }

    fn clean_up(&mut self, dir: &str, keep: &str) -> Result<(), BackupError> {
        let mut clean = delete_old_snapshots(dir, keep);
        while clean.stage() != CleanStage::Done {
            let reply = self.perform(clean.action());
            clean.advance(reply);
        }
        clean.finish()
    }

    fn full(&mut self, config: &Config) -> Result<(), BackupError> {
        let now = self.clock().now;
        let mut backup = full_backup_at(config, now);
        while backup.stage() != FullStage::Done {
            let reply = self.perform(backup.action());
            let clock = self.clock();
            backup.advance(reply, clock);
        }
        backup.finish()
    }

    fn incremental(&mut self, config: &Config, stamp: &str) -> Result<(), BackupError> {
        let clock = Clock { stamp: stamp.to_owned(), ..self.clock() };
        let mut backup = incremental_backup_at(config, clock);
        while backup.stage() != IncrStage::Done {
            let reply = self.perform(backup.action());
            let now = self.clock().now;
            backup.advance(reply, now);
        }
        backup.finish()
    }
}

fn config() -> Config {
    Config {
        paths: PathsConfig {
            source_path: "/mnt/a".to_owned(),
            source_subvolume: "data".to_owned(),
            backup_path: "/mnt/b".to_owned(),
        },
        s3: S3Config { bucket: "my-bucket".to_owned(), retention_count: 10, aws_profile: None },
        gpg: GpgConfig { public_key_file: "/etc/key.pub".to_owned() },
        schedule: ScheduleConfig {
            check_interval: 7200,
            full_backup_interval: 604_800,
            incremental_interval: 86400,
        },
        state: StateConfig { state_dir: "/var/lib/btrshot".to_owned() },
    }
}

/// A configuration of which nothing but the state directory may exist.
fn bare_config(state_dir: &str) -> Config {
    Config {
        paths: PathsConfig {
            source_path: "/nonexistent/source".to_owned(),
            source_subvolume: "data".to_owned(),
            backup_path: "/nonexistent/backup".to_owned(),
        },
        s3: S3Config { bucket: "test-bucket".to_owned(), retention_count: 10, aws_profile: None },
        gpg: GpgConfig { public_key_file: "/etc/key.pub".to_owned() },
        schedule: ScheduleConfig {
            check_interval: 7200,
            full_backup_interval: 604_800,
            incremental_interval: 86400,
        },
        state: StateConfig { state_dir: state_dir.to_owned() },
    }
}

// ---------------------------------------------------------------------------
// delete_old_snapshots
// ---------------------------------------------------------------------------

#[test]
fn test_delete_old_snapshots_skips_kept_entry() {
    let mut world = World::new();
    world.has_btrfs = false;
    let keep = "full_20240101_120000";
    world.dirs.insert(format!("/mnt/b/snapshots/{keep}"));
    let result = world.clean_up("/mnt/b/snapshots", keep);
    assert!(result.is_ok(), "should succeed when only the kept snapshot exists: {result:?}");
    assert!(world.there("/mnt/b/snapshots/full_20240101_120000"), "kept snapshot should still exist");
}

#[test]
fn test_delete_old_snapshots_ignores_non_snapshot_entries() {
    let mut world = World::new();
    world.has_btrfs = false;
    let keep = "full_20240101_120000";
    world.dirs.insert(format!("/mnt/b/snapshots/{keep}"));
    world.dirs.insert("/mnt/b/snapshots/some_other_dir".to_owned());
    let result = world.clean_up("/mnt/b/snapshots", keep);
    assert!(result.is_ok(), "should succeed ignoring non-snapshot entries: {result:?}");
    assert!(
        world.there("/mnt/b/snapshots/some_other_dir"),
        "non-snapshot directory should not be deleted"
    );
}

#[test]
fn test_delete_old_snapshots_attempts_to_delete_old_full_snapshot() {
    let mut world = World::new();
    world.has_btrfs = false;
    let keep = "full_20240202_120000";
    world.dirs.insert(format!("/mnt/b/snapshots/{keep}"));
    world.dirs.insert("/mnt/b/snapshots/full_20240101_120000".to_owned());
    let result = world.clean_up("/mnt/b/snapshots", keep);
    assert!(
        result.is_err(),
        "should fail because btrfs subvolume delete cannot run on a plain dir"
    );
    assert_eq!(
        result.expect_err("Err").message(),
        format!(
            "failed to delete old snapshot: \
             /mnt/b/snapshots/full_20240101_120000: failed to spawn 'btrfs': {NO_SUCH_FILE}"
        )
    );
}

#[test]
fn test_delete_old_snapshots_attempts_to_delete_old_incr_snapshot() {
    let mut world = World::new();
    world.has_btrfs = false;
    let keep = "full_20240202_120000";
    world.dirs.insert(format!("/mnt/b/snapshots/{keep}"));
    world.dirs.insert("/mnt/b/snapshots/incr_20240101_120000".to_owned());
    let result = world.clean_up("/mnt/b/snapshots", keep);
    assert!(
        result.is_err(),
        "should fail because btrfs subvolume delete cannot run on a plain dir"
    );
}

#[test]
fn test_delete_old_snapshots_missing_dir_returns_err() {
    let mut world = World::new();
    let result = world.clean_up("/nonexistent/snapshots", "full_20240101_120000");
    assert!(result.is_err(), "missing dir should return Err");
    assert_eq!(
        result.expect_err("Err").message(),
        format!(
            "failed to read snapshots dir: \
             /nonexistent/snapshots: {NO_SUCH_FILE}"
        )
    );
}

#[test]
fn an_unreadable_entry_stops_the_clean_up_where_it_stands() {
    let mut clean = delete_old_snapshots("/s", "full_20240202_120000");
    let entries = vec![
        Ok("lost+found".to_owned()),
        Ok("incr_1".to_owned()),
        Ok("full_20240202_120000".to_owned()),
        Err("bad sector".to_owned()),
        Ok("full_2".to_owned()),
    ];
    clean.advance(Reply::Listed(Ok(entries)));
    assert_eq!(clean.stage(), CleanStage::Delete(1));
    match clean.action() {
        Action::Run(c) => assert_eq!(c.args, vec!["subvolume", "delete", "/s/incr_1"]),
        other => panic!("{other:?}"),
    }
    clean.advance(Reply::Found(true));
    assert_eq!(clean.stage(), CleanStage::Delete(1), "a reply that does not belong here changes nothing");
    clean.advance(Reply::Ran(Ok(())));
    assert_eq!(clean.stage(), CleanStage::Done);
    assert_eq!(
        clean.finish().expect_err("Err").message(),
        "failed to read directory entry in /s: bad sector"
    );
}

// ---------------------------------------------------------------------------
// Full backups
// ---------------------------------------------------------------------------

#[test]
fn test_run_full_backup_fails_on_nonexistent_state_dir() {
    let mut world = World::new();
    let config = bare_config("/nonexistent/state");
    let result = world.full(&config);
    assert!(result.is_err(), "run_full_backup should fail when state_dir does not exist");
    assert_eq!(
        result.expect_err("Err").message(),
        format!(
            "failed to write in_progress:full state: failed to create tmp file: \
             /nonexistent/state/state.tmp: {NO_SUCH_FILE}"
        )
    );
    assert_eq!(world.log.len(), 1, "nothing else is done");
}

#[test]
fn test_run_full_backup_fails_at_btrfs_snapshot_step() {
    let mut world = World::new();
    world.has_btrfs = false;
    let config = bare_config("/var/lib/btrshot");
    let result = world.full(&config);
    assert!(
        result.is_err(),
        "run_full_backup should fail when btrfs subvolume snapshot cannot run"
    );
    assert_eq!(
        world.state("/var/lib/btrshot"),
        State::InProgress(Operation::Full),
        "state should be in_progress:full after the first step"
    );
}

#[test]
fn a_full_backup_does_its_steps_in_order() {
    let mut world = World::new();
    for d in ["/mnt/a/.snap_base_full", "/mnt/b/snapshots/full_20240101_000000", "/mnt/b/snapshots/incr_20240102_000000"]
    {
        world.dirs.insert(d.to_owned());
    }
    world.links.insert("/mnt/b/current".to_owned(), "snapshots/full_20240101_000000".to_owned());
    let mut config = config();
    config.s3.retention_count = 1;
    world.objects.insert("full_20240101_000000.tar.gpg".to_owned());
    world.objects.insert("notes.txt".to_owned());
    world.full(&config).expect("Ok");
    let key = "/etc/key.pub";
    let expected: Vec<String> = vec![
        "write /var/lib/btrshot/state in_progress:full:1706000001".to_owned(),
        "btrfs subvolume snapshot -r /mnt/a/data /mnt/a/.snap_tmp".to_owned(),
        "btrfs send /mnt/a/.snap_tmp".to_owned(),
        "btrfs receive /mnt/b/snapshots".to_owned(),
        "rename /mnt/b/snapshots/.snap_tmp /mnt/b/snapshots/full_20240123_085320".to_owned(),
        "remove /mnt/b/current".to_owned(),
        "symlink snapshots/full_20240123_085320 /mnt/b/current".to_owned(),
        "btrfs subvolume delete /mnt/b/snapshots/full_20240101_000000".to_owned(),
        "btrfs subvolume delete /mnt/b/snapshots/incr_20240102_000000".to_owned(),
        "btrfs subvolume delete /mnt/a/.snap_base_full".to_owned(),
        "rename /mnt/a/.snap_tmp /mnt/a/.snap_base_full".to_owned(),
        "write /var/lib/btrshot/state in_progress:s3_upload:1706000015".to_owned(),
        "tar -cf - -C /mnt/b/snapshots full_20240123_085320/".to_owned(),
        format!("gpg --encrypt --recipient-file {key} --output -"),
        "aws s3 cp - s3://my-bucket/full_20240123_085320.tar.gpg".to_owned(),
        "aws s3 ls s3://my-bucket/".to_owned(),
        "aws s3 rm s3://my-bucket/full_20240101_000000.tar.gpg".to_owned(),
        "write /var/lib/btrshot/state idle::1706000019".to_owned(),
        "write /var/lib/btrshot/last_full_backup 1706000020".to_owned(),
        "write /var/lib/btrshot/state idle::1706000021".to_owned(),
    ];
    assert_eq!(world.log, expected);
    assert_eq!(world.state("/var/lib/btrshot"), State::Idle);
    assert_eq!(world.links["/mnt/b/current"], "snapshots/full_20240123_085320");
    assert!(world.objects.contains("notes.txt"));
}

#[test]
fn a_first_full_backup_finds_nothing_to_remove() {
    let mut world = World::new();
    world.full(&config()).expect("Ok");
    assert!(!world.log.iter().any(|l| l.starts_with("remove") || l.starts_with("btrfs subvolume delete")));
    assert!(world.there("/mnt/a/.snap_base_full") && !world.there("/mnt/a/.snap_tmp"));
    assert_eq!(world.files["/var/lib/btrshot/last_full_backup"].parse::<u64>().is_ok(), true);
}

#[test]
fn a_full_backup_is_not_recorded_without_its_upload() {
    let mut world = World::new();
    world.broken = Some("aws s3 cp".to_owned());
    let e = world.full(&config()).expect_err("Err");
    assert_eq!(e.part, Part::Upload);
    assert_eq!(e.context, Context::Stream);
    assert_eq!(
        e.message(),
        "S3 upload failed: failed to stream-upload snapshot to S3: \
         pipeline step 2 ('aws') exited with status 1: broken"
    );
    assert_eq!(world.state("/var/lib/btrshot"), State::InProgress(Operation::S3Upload));
    assert!(!world.there("/var/lib/btrshot/last_full_backup"));
    assert_eq!(world.log.last().map(String::as_str), Some("aws s3 cp - s3://my-bucket/full_20240123_085320.tar.gpg"));
}

#[test]
fn failures_of_full_backups_and_their_messages() {
    for (broken, message) in [
        (
            "btrfs subvolume snapshot",
            "failed to create read-only snapshot on Disk A: 'btrfs' exited with status 1: broken",
        ),
        (
            "btrfs send",
            "failed to send snapshot to Disk B: pipeline step 0 ('btrfs') exited with status 1: broken",
        ),
        (
            "btrfs subvolume delete /mnt/a/.snap_base_full",
            "failed to delete old .snap_base_full on Disk A: 'btrfs' exited with status 1: broken",
        ),
        (
            "btrfs subvolume delete /mnt/b/snapshots/incr_20240101_000000",
            "failed to delete old snapshots on Disk B: failed to delete old snapshot: \
             /mnt/b/snapshots/incr_20240101_000000: 'btrfs' exited with status 1: broken",
        ),
        (
            "aws s3 ls",
            "S3 upload failed: failed to list S3 objects: 'aws' exited with status 1: broken",
        ),
    ] {
        let mut world = World::new();
        world.dirs.insert("/mnt/a/.snap_base_full".to_owned());
        world.dirs.insert("/mnt/b/snapshots/incr_20240101_000000".to_owned());
        world.broken = Some(broken.to_owned());
        assert_eq!(world.full(&config()).expect_err("Err").message(), message);
        assert!(!world.there("/var/lib/btrshot/last_full_backup"));
    }
}

/// A full backup that has been told `replies`, all at one time.
fn told_full(replies: Vec<Reply>) -> String {
    let config = config();
    let mut backup = full_backup_at(&config, Ok(1));
    for reply in replies {
        backup.advance(reply, Clock { now: Ok(2), stamp: "20240123_085320".to_owned() });
    }
    assert_eq!(backup.stage(), FullStage::Done);
    backup.finish().expect_err("Err").message()
}

#[test]
fn filesystem_failures_of_full_backups() {
    let start = || vec![Reply::Written(Ok(())), Reply::Ran(Ok(())), Reply::Ran(Ok(()))];
    let why = || Reply::Done(Err("why".to_owned()));
    let with = |more: Vec<Reply>| {
        let mut all = start();
        all.extend(more);
        all
    };
    assert_eq!(
        told_full(with(vec![why()])),
        "failed to rename /mnt/b/snapshots/.snap_tmp to /mnt/b/snapshots/full_20240123_085320: why"
    );
    assert_eq!(
        told_full(with(vec![Reply::Done(Ok(())), Reply::Found(true), why()])),
        "failed to remove old 'current' symlink at /mnt/b/current: why"
    );
    assert_eq!(
        told_full(with(vec![Reply::Done(Ok(())), Reply::Found(false), why()])),
        "failed to create 'current' symlink /mnt/b/current -> snapshots/full_20240123_085320: why"
    );
    assert_eq!(
        told_full(with(vec![
            Reply::Done(Ok(())),
            Reply::Found(false),
            Reply::Done(Ok(())),
            Reply::Listed(Err("why".to_owned())),
        ])),
        "failed to delete old snapshots on Disk B: failed to read snapshots dir: /mnt/b/snapshots: why"
    );
    assert_eq!(
        told_full(with(vec![
            Reply::Done(Ok(())),
            Reply::Found(false),
            Reply::Done(Ok(())),
            Reply::Listed(Ok(Vec::new())),
            Reply::Found(false),
            why(),
        ])),
        "failed to rename /mnt/a/.snap_tmp to /mnt/a/.snap_base_full: why"
    );
}

#[test]
fn clock_failures_of_full_backups() {
    let config = config();
    let backup = full_backup_at(&config, Err("early".to_owned()));
    assert_eq!(backup.stage(), FullStage::Done);
    assert_eq!(
        backup.finish().expect_err("Err").message(),
        "failed to write in_progress:full state: system clock is before the Unix epoch: early"
    );
    let mut backup = full_backup_at(&config, Ok(1));
    for reply in [Reply::Written(Ok(())), Reply::Ran(Ok(())), Reply::Ran(Ok(()))] {
        backup.advance(reply, Clock { now: Ok(2), stamp: "+100000101_000000".to_owned() });
    }
    assert_eq!(
        backup.finish().expect_err("Err").message(),
        "failed to build full snapshot name: invalid timestamp \"+100000101_000000\": \
         expected 15 characters (YYYYMMDD_HHMMSS), got 17"
    );
}

#[test]
fn full_backups_start_with_the_clock() {
    let config = config();
    let backup = run_full_backup(&config);
    match backup.action() {
        Action::Write(w) => {
            assert_eq!(w.path, "/var/lib/btrshot/state");
            assert!(w.content.starts_with("in_progress:full:1"));
        }
        other => panic!("{other:?}"),
    }
}

// ---------------------------------------------------------------------------
// Incremental backups
// ---------------------------------------------------------------------------

#[test]
fn test_run_incremental_backup_fails_on_nonexistent_state_dir() {
    let mut world = World::new();
    let config = bare_config("/nonexistent/state");
    let result = world.incremental(&config, "20240101_120000");
    assert!(result.is_err(), "run_incremental_backup should fail when state_dir does not exist");
    assert_eq!(world.log.len(), 1, "nothing else is done");
}

#[test]
fn test_run_incremental_backup_writes_state_before_btrfs() {
    let mut world = World::new();
    world.has_btrfs = false;
    let config = bare_config("/var/lib/btrshot");
    let result = world.incremental(&config, "20240101_120000");
    assert!(
        result.is_err(),
        "run_incremental_backup should fail when btrfs subvolume snapshot cannot run"
    );
    assert_eq!(
        world.state("/var/lib/btrshot"),
        State::InProgress(Operation::Incremental),
        "state should be in_progress:incremental after the first step"
    );
    assert_eq!(world.log.len(), 2, "nothing is cleaned up, for there is no snapshot yet");
}

#[test]
fn an_incremental_backup_does_its_steps_in_order() {
    let mut world = World::new();
    world.dirs.insert("/mnt/a/.snap_base_full".to_owned());
    world.incremental(&config(), "20240102_030405").expect("Ok");
    assert_eq!(
        world.log,
        vec![
            "write /var/lib/btrshot/state in_progress:incremental:1706000001",
            "btrfs subvolume snapshot -r /mnt/a/data /mnt/a/.snap_tmp",
            "btrfs send -p /mnt/a/.snap_base_full /mnt/a/.snap_tmp",
            "btrfs receive /mnt/b/snapshots",
            "rename /mnt/b/snapshots/.snap_tmp /mnt/b/snapshots/incr_20240102_030405",
            "btrfs subvolume delete /mnt/a/.snap_base_full",
            "rename /mnt/a/.snap_tmp /mnt/a/.snap_base_full",
            "write /var/lib/btrshot/last_incremental_backup 1706000008",
            "write /var/lib/btrshot/state idle::1706000009",
        ]
    );
    assert_eq!(world.state("/var/lib/btrshot"), State::Idle);
    assert!(world.there("/mnt/b/snapshots/incr_20240102_030405"));
}

#[test]
fn an_incremental_backup_needs_a_base() {
    let mut world = World::new();
    let e = world.incremental(&config(), "20240102_030405").expect_err("Err");
    assert_eq!(
        e.message(),
        "Cannot run incremental backup: base snapshot `.snap_base_full` does not exist at \
         /mnt/a/.snap_base_full. A full backup must run first."
    );
    assert!(!world.there("/mnt/a/.snap_tmp"), "the temporary snapshot is gone");
    assert_eq!(world.state("/var/lib/btrshot"), State::InProgress(Operation::Incremental));
}

#[test]
fn a_failed_incremental_backup_cleans_up() {
    for (broken, message) in [
        (
            "btrfs receive",
            "failed to send incremental snapshot to Disk B: pipeline step 1 ('btrfs') exited with status 1: broken",
        ),
        (
            "btrfs subvolume delete /mnt/a/.snap_base_full",
            "failed to delete old .snap_base_full on Disk A: 'btrfs' exited with status 1: broken",
        ),
    ] {
        let mut world = World::new();
        world.dirs.insert("/mnt/a/.snap_base_full".to_owned());
        world.broken = Some(broken.to_owned());
        let e = world.incremental(&config(), "20240102_030405").expect_err("Err");
        assert_eq!(e.message(), message);
        assert_eq!(
            world.log.last().map(String::as_str),
            Some("btrfs subvolume delete /mnt/a/.snap_tmp"),
            "the temporary snapshot is deleted last"
        );
        assert!(!world.there("/mnt/a/.snap_tmp") && world.there("/mnt/a/.snap_base_full"));
        assert!(!world.there("/var/lib/btrshot/last_incremental_backup"));
    }
}

#[test]
fn a_failed_clean_up_does_not_replace_the_error() {
    let config = config();
    let mut backup =
        incremental_backup_at(&config, Clock { now: Ok(1), stamp: "20240102_030405".to_owned() });
    for reply in [Reply::Written(Ok(())), Reply::Ran(Ok(())), Reply::Found(true), Reply::Ran(Ok(()))] {
        backup.advance(reply, Ok(2));
    }
    assert_eq!(backup.stage(), IncrStage::RenameReceived);
    backup.advance(Reply::Done(Err("why".to_owned())), Ok(3));
    assert_eq!(backup.stage(), IncrStage::CleanUp);
    backup.advance(Reply::Ran(Err(CommandError::TooFewSteps { steps: 0 })), Ok(4));
    assert_eq!(backup.stage(), IncrStage::Done);
    assert_eq!(
        backup.finish().expect_err("Err").message(),
        "failed to rename /mnt/b/snapshots/.snap_tmp to /mnt/b/snapshots/incr_20240102_030405: why"
    );
}

#[test]
fn clock_failures_of_incremental_backups() {
    let config = config();
    let backup = incremental_backup_at(&config, Clock { now: Err("early".to_owned()), stamp: String::new() });
    assert_eq!(
        backup.finish().expect_err("Err").message(),
        "failed to write in_progress:incremental state: system clock is before the Unix epoch: early"
    );
    let mut backup = incremental_backup_at(&config, Clock { now: Ok(1), stamp: "20240102-030405".to_owned() });
    for reply in [Reply::Written(Ok(())), Reply::Ran(Ok(())), Reply::Found(true)] {
        backup.advance(reply, Ok(2));
    }
    assert_eq!(
        backup.finish().expect_err("Err").message(),
        "failed to build incremental snapshot name: invalid timestamp \"20240102-030405\": \
         character at position 8 must be '_', got '-'"
    );
    let mut backup = incremental_backup_at(&config, Clock { now: Ok(1), stamp: "20240102_030405".to_owned() });
    for reply in [
        Reply::Written(Ok(())),
        Reply::Ran(Ok(())),
        Reply::Found(true),
        Reply::Ran(Ok(())),
        Reply::Done(Ok(())),
        Reply::Ran(Ok(())),
        Reply::Done(Ok(())),
    ] {
        backup.advance(reply, Err("early".to_owned()));
    }
    assert_eq!(
        backup.finish().expect_err("Err").message(),
        "failed to read system clock: system clock is before the Unix epoch: early"
    );
}

#[test]
fn incremental_backups_start_with_the_clock() {
    let config = config();
    let backup = run_incremental_backup(&config);
    match backup.action() {
        Action::Write(w) => assert!(w.content.starts_with("in_progress:incremental:1")),
        other => panic!("{other:?}"),
    }
}

// ---------------------------------------------------------------------------
// Uploads
// ---------------------------------------------------------------------------

#[test]
fn test_run_s3_upload_rejects_invalid_snapshot_name() {
    let config = bare_config("/nonexistent/state");
    let result = run_s3_upload(&config, "../../etc/passwd");
    assert!(result.is_err(), "should reject invalid snapshot name");
    let msg = result.expect_err("already Err").message();
    assert!(
        msg.contains("invalid snapshot name"),
        "error should mention invalid snapshot name; got: {msg}"
    );
    assert_eq!(
        msg,
        "invalid snapshot name \"../../etc/passwd\": must match (full|incr)_YYYYMMDD_HHMMSS"
    );
}

#[test]
fn test_run_s3_upload_rejects_missing_gpg_key() {
    let mut world = World::new();
    let mut config = bare_config("/var/lib/btrshot");
    config.gpg.public_key_file = "/nonexistent/key.pub".to_owned();
    let result = world.upload(&config, "full_20240101_120000");
    assert!(result.is_err(), "should reject missing GPG key file");
    let msg = result.expect_err("already Err").message();
    assert!(
        msg.contains("GPG") || msg.contains("gpg") || msg.contains("key"),
        "error should mention GPG/key; got: {msg}"
    );
    assert_eq!(
        msg,
        "GPG public key file does not exist or is not a regular file: /nonexistent/key.pub"
    );
    assert_eq!(
        world.state("/var/lib/btrshot"),
        State::Idle,
        "state should remain Idle when validation fails before state write"
    );
}

#[test]
fn test_run_s3_upload_fails_on_nonexistent_state_dir() {
    let mut world = World::new();
    let config = bare_config("/nonexistent/state");
    let result = world.upload(&config, "full_20240101_120000");
    assert!(result.is_err(), "run_s3_upload should fail when state_dir does not exist");
    assert_eq!(result.expect_err("Err").context, Context::MarkUpload);
}

#[test]
fn test_run_s3_upload_writes_state_before_pipeline() {
    let mut world = World::new();
    let config = bare_config("/var/lib/btrshot");
    world.broken = Some("aws".to_owned());
    let result = world.upload(&config, "full_20240101_120000");
    assert!(result.is_err(), "run_s3_upload should fail when pipeline cannot execute");
    assert_eq!(
        world.state("/var/lib/btrshot"),
        State::InProgress(Operation::S3Upload),
        "state should be in_progress:s3_upload after the first step"
    );
}

#[test]
fn test_run_s3_upload_writes_idle_state_on_success() {
    let mut world = World::new();
    world.bucket = "test-bucket".to_owned();
    let mut config = bare_config("/var/lib/btrshot");
    config.s3.retention_count = 1;
    world.dirs.insert("/nonexistent/backup/snapshots/full_20240102_120000".to_owned());
    world.objects.insert("full_20240101_120000.tar.gpg".to_owned());
    let result = world.upload(&config, "full_20240102_120000");
    assert!(result.is_ok(), "run_s3_upload should succeed; got: {result:?}");
    assert_eq!(world.state("/var/lib/btrshot"), State::Idle, "state should be Idle after success");
    let rm_calls: Vec<&String> = world.log.iter().filter(|l| l.starts_with("aws s3 rm")).collect();
    assert_eq!(
        rm_calls,
        vec!["aws s3 rm s3://test-bucket/full_20240101_120000.tar.gpg"],
        "aws s3 rm should have been called for the oldest object"
    );
    assert_eq!(world.objects.len(), 1);
}

#[test]
fn an_upload_deletes_the_oldest_object_of_either_kind() {
    let mut world = World::new();
    world.bucket = "test-bucket".to_owned();
    let mut config = bare_config("/var/lib/btrshot");
    config.s3.retention_count = 1;
    world.dirs.insert("/nonexistent/backup/snapshots/full_20240103_090000".to_owned());
    world.objects.insert("incr_20240101_120000.tar.gpg".to_owned());
    world.upload(&config, "full_20240103_090000").expect("Ok");
    let rm_calls: Vec<&String> = world.log.iter().filter(|l| l.starts_with("aws s3 rm")).collect();
    assert_eq!(rm_calls, vec!["aws s3 rm s3://test-bucket/incr_20240101_120000.tar.gpg"]);
    assert!(world.objects.contains("full_20240103_090000.tar.gpg"), "the new object is kept");
}

#[test]
fn the_upload_of_a_full_backup_shows_while_it_lasts() {
    let config = config();
    let mut backup = full_backup_at(&config, Ok(1));
    for reply in [
        Reply::Written(Ok(())),
        Reply::Ran(Ok(())),
        Reply::Ran(Ok(())),
        Reply::Done(Ok(())),
        Reply::Found(false),
        Reply::Done(Ok(())),
        Reply::Listed(Ok(Vec::new())),
        Reply::Found(false),
        Reply::Done(Ok(())),
    ] {
        assert!(backup.upload().is_none());
        backup.advance(reply, Clock { now: Ok(2), stamp: "20240123_085320".to_owned() });
    }
    assert_eq!(backup.upload().map(|u| u.stage()), Some(S3Stage::ProbeKey));
}

#[test]
fn a_failed_deletion_is_reported_with_its_uri() {
    let mut world = World::new();
    let mut config = config();
    config.s3.retention_count = 0;
    world.dirs.insert("/mnt/b/snapshots/full_20240102_120000".to_owned());
    world.objects.insert("full_20240101_120000.tar.gpg".to_owned());
    world.broken = Some("aws s3 rm s3://my-bucket/full_20240102".to_owned());
    let e = world.upload(&config, "full_20240102_120000").expect_err("Err");
    assert_eq!(e.part, Part::Whole);
    assert_eq!(
        e.message(),
        "failed to delete S3 object: s3://my-bucket/full_20240102_120000.tar.gpg: \
         'aws' exited with status 1: broken"
    );
    assert_eq!(world.objects.len(), 1, "the older object was deleted before");
}

#[test]
fn the_profile_is_set_on_every_command_of_an_upload() {
    let mut config = config();
    config.s3.aws_profile = Some("backup-profile".to_owned());
    let profile = vec![("AWS_PROFILE".to_owned(), "backup-profile".to_owned())];
    let mut upload = run_s3_upload(&config, "full_20240102_120000").expect("Ok");
    upload.advance(Reply::Found(true), Ok(1));
    upload.advance(Reply::Written(Ok(())), Ok(2));
    match upload.action() {
        Action::Pipe(p) => {
            for i in 0..3 {
                assert_eq!(p.command(i).env, profile);
            }
            assert_eq!(p.command(2).program, "aws");
        }
        other => panic!("{other:?}"),
    }
    upload.advance(Reply::Ran(Ok(())), Ok(3));
    match upload.action() {
        Action::Capture(c) => assert_eq!(c.env, profile),
        other => panic!("{other:?}"),
    }
    upload.advance(Reply::Captured(Ok("a b c full_20240101_120000.tar.gpg\n".repeat(11))), Ok(4));
    assert_eq!(upload.stage(), S3Stage::Delete(0));
    match upload.action() {
        Action::Run(c) => assert_eq!(c.env, profile),
        other => panic!("{other:?}"),
    }
    upload.advance(Reply::Ran(Ok(())), Err("early".to_owned()));
    assert_eq!(
        upload.finish().expect_err("Err").message(),
        "failed to write idle state: system clock is before the Unix epoch: early"
    );
}
