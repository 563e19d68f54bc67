//! Full backups.

use vstd::prelude::*;

use crate::backup::action::{
    create_snapshot, delete_subvolume, snapshot_creation, state_action, state_write, subvolume_delete, transfer,
    transfer_steps, write_action, Action, ActionView, Reply,
};
use crate::backup::error::{
    about, bare, bare_error, between, command_error, error_about, error_between, error_view, io_error, write_error,
    BackupError, BackupErrorView, Context, Fault, Part,
};
use crate::backup::retention::snapshot_names_are_those_of_backups;
use crate::backup::s3::{fresh_upload, is_snapshot_name, run_s3_upload, s3_action, s3_next, S3Stage, S3Upload, S3View};
use crate::clock::{current_unix_ts, is_reading, same_reading, Clock, Reading};
use crate::cmd::{arg_texts, CommandError};
use crate::config::Config;
use crate::number::decimal;
use crate::path::{join, joined_path};
use crate::snapshot::{
    current_symlink, full_snapshot_name, is_timestamp, snapshots_below, snapshots_dir, timestamp_fault, FULL_PREFIX,
    INCR_PREFIX, SNAP_BASE_FULL, SNAP_TMP,
};
use crate::state::{Operation, State, Timestamps, WriteError};
use crate::text::{has_prefix, same_text};

verus! {

broadcast use vstd::string::group_string_axioms;

/// An entry of the snapshots directory: its name, or why it could not be read.
pub type Entry = Result<String, String>;

/// Whether a snapshot called `name` goes when only `keep` stays: every name with
/// the prefix of a full or an incremental backup, except `keep` itself.
pub open spec fn is_old(name: Seq<char>, keep: Seq<char>) -> bool {
    &&& name != keep
    &&& FULL_PREFIX@.is_prefix_of(name) || INCR_PREFIX@.is_prefix_of(name)
}

fn is_old_name(name: &str, keep: &str) -> (r: bool)
    ensures
        r == is_old(name@, keep@),
{
    !same_text(name, keep) && (has_prefix(name, FULL_PREFIX) || has_prefix(name, INCR_PREFIX))
}

/// Whether the clean-up passes over an entry.
pub open spec fn is_skipped(entry: Entry, keep: Seq<char>) -> bool {
    match entry {
        Ok(name) => !is_old(name@, keep),
        Err(_) => false,
    }
}

fn passes_over(entry: &Entry, keep: &str) -> (r: bool)
    ensures
        r == is_skipped(*entry, keep@),
{
    match entry {
        Ok(name) => !is_old_name(name.as_str(), keep),
        Err(_) => false,
    }
}

/// The position of the first entry from `i` on that the clean-up does not pass
/// over, or the number of entries.
pub open spec fn next_old(entries: Seq<Entry>, keep: Seq<char>, i: int) -> int
    decreases entries.len() - i,
{
    if i >= entries.len() {
        entries.len() as int
    } else if is_skipped(entries[i], keep) {
        next_old(entries, keep, i + 1)
    } else {
        i
    }
}

pub proof fn next_old_bounds(entries: Seq<Entry>, keep: Seq<char>, i: int)
    requires
        0 <= i <= entries.len(),
    ensures
        i <= next_old(entries, keep, i) <= entries.len(),
        next_old(entries, keep, i) < entries.len() ==> !is_skipped(entries[next_old(entries, keep, i)], keep),
    decreases entries.len() - i,
{
    if i < entries.len() && is_skipped(entries[i], keep) {
        next_old_bounds(entries, keep, i + 1);
    }
}

/// What a clean-up is about.
#[derive(Debug, PartialEq, Eq, Structural, Clone, Copy)]
pub enum CleanStage {
    /// List the snapshots directory.
    List,
    /// Delete the entry at this position.
    Delete(usize),
    /// Nothing more.
    Done,
}

/// The deletion of old snapshots, in progress.
#[derive(Debug)]
pub struct CleanUp {
    dir: String,
    keep: String,
    stage: CleanStage,
    entries: Vec<Entry>,
    failure: Option<BackupError>,
}

/// The state of a [`CleanUp`].
#[verifier::ext_equal]
pub struct CleanView {
    /// The snapshots directory.
    pub dir: Seq<char>,
    /// The snapshot that stays.
    pub keep: Seq<char>,
    pub stage: CleanStage,
    /// The entries of the directory, once they are known.
    pub entries: Seq<Entry>,
    pub failure: Option<BackupErrorView>,
}

impl View for CleanUp {
    type V = CleanView;

    closed spec fn view(&self) -> CleanView {
        CleanView {
            dir: self.dir@,
            keep: self.keep@,
            stage: self.stage,
            entries: self.entries@,
            failure: error_view(self.failure),
        }
    }
}

impl CleanView {
    /// The entry that is being deleted is there, and is an old snapshot.
    pub open spec fn well_formed(self) -> bool {
        self.stage matches CleanStage::Delete(i) ==> {
            &&& i < self.entries.len()
            &&& self.entries[i as int] matches Ok(name)
            &&& is_old(name@, self.keep)
        }
    }
}

/// A clean-up that has yet to do its first step.
pub open spec fn fresh_clean_up(dir: Seq<char>, keep: Seq<char>) -> CleanView {
    CleanView { dir, keep, stage: CleanStage::List, entries: seq![], failure: None }
}

/// The path of the entry at position `i`.
pub open spec fn entry_path(v: CleanView, i: int) -> Seq<char> {
    join(v.dir, v.entries[i]->Ok_0@)
}

/// What a clean-up asks for next.
pub open spec fn clean_action(v: CleanView) -> ActionView {
    match v.stage {
        CleanStage::List => ActionView::ListDir { path: v.dir },
        CleanStage::Delete(i) => delete_subvolume(entry_path(v, i as int)),
        CleanStage::Done => ActionView::Stop,
    }
}

/// A clean-up that has failed with `e`.
pub open spec fn clean_failed(v: CleanView, e: BackupErrorView) -> CleanView {
    CleanView { stage: CleanStage::Done, failure: Some(e), ..v }
}

/// A clean-up that has dealt with the first `i` entries.
pub open spec fn clean_from(v: CleanView, i: int) -> CleanView {
    let k = next_old(v.entries, v.keep, i);
    if k >= v.entries.len() {
        CleanView { stage: CleanStage::Done, ..v }
    } else {
        match v.entries[k] {
            Ok(_) => CleanView { stage: CleanStage::Delete(k as usize), ..v },
            Err(cause) => clean_failed(v, about(Context::ReadEntry, v.dir, Fault::Io(cause))),
        }
    }
}

/// How a reply moves a clean-up on. A reply that does not belong to what the
/// clean-up has asked for leaves it as it is.
pub open spec fn clean_next(v: CleanView, reply: Reply) -> CleanView {
    match (v.stage, reply) {
        (CleanStage::List, Reply::Listed(r)) => match r {
            Ok(entries) => clean_from(CleanView { entries: entries@, ..v }, 0),
            Err(cause) => clean_failed(v, about(Context::ListSnapshots, v.dir, Fault::Io(cause))),
        },
        (CleanStage::Delete(i), Reply::Ran(r)) => match r {
            Ok(()) => clean_from(v, i + 1),
            Err(e) => clean_failed(v, about(Context::DeleteSnapshot, entry_path(v, i as int), Fault::Command(e))),
        },
        _ => v,
    }
}

impl CleanUp {
    #[verifier::type_invariant]
    spec fn type_inv(self) -> bool {
        self@.well_formed()
    }

    /// What the clean-up is about.
    pub fn stage(&self) -> (r: CleanStage)
        ensures
            r == self@.stage,
            self@.well_formed(),
    {
        proof {
            use_type_invariant(self);
        }
        self.stage
    }

    fn path_at(&self, i: usize) -> (r: String)
        requires
            i < self@.entries.len(),
            self@.entries[i as int] is Ok,
        ensures
            r@ == entry_path(self@, i as int),
    {
        match &self.entries[i] {
            Ok(name) => joined_path(self.dir.as_str(), name.as_str()),
            Err(_) => String::new(),
        }
    }

    /// What the clean-up asks for next.
    pub fn action(&self) -> (r: Action)
        ensures
            r@ == clean_action(self@),
            r.is_fresh(),
    {
        proof {
            use_type_invariant(self);
        }
        match self.stage {
            CleanStage::List => Action::ListDir { path: self.dir.clone() },
            CleanStage::Delete(i) => subvolume_delete(self.path_at(i).as_str()),
            CleanStage::Done => Action::Stop,
        }
    }

    fn fail(&mut self, e: BackupError)
        ensures
            final(self)@ == clean_failed(old(self)@, e@),
    {
        self.stage = CleanStage::Done;
        self.failure = Some(e);
    }

    fn go_on_from(&mut self, i: usize)
        requires
            i <= old(self)@.entries.len(),
        ensures
            final(self)@ == clean_from(old(self)@, i as int),
    {
        let mut k: usize = i;
        while k < self.entries.len() && passes_over(&self.entries[k], self.keep.as_str())
            invariant
                i <= k <= self.entries@.len(),
                *self == *old(self),
                next_old(self.entries@, self.keep@, i as int) == next_old(self.entries@, self.keep@, k as int),
            decreases self.entries@.len() - k,
        {
            k += 1;
        }
        if k >= self.entries.len() {
            self.stage = CleanStage::Done;
        } else {
            let cause = match &self.entries[k] {
                Ok(_) => None,
                Err(cause) => Some(cause.clone()),
            };
            match cause {
                None => {
                    self.stage = CleanStage::Delete(k);
                },
                Some(cause) => {
                    let dir = self.dir.clone();
                    self.fail(error_about(Context::ReadEntry, dir, Fault::Io(cause)));
                },
            }
        }
    }

    /// Takes note of what came of the last action.
    pub fn advance(&mut self, reply: Reply)
        ensures
            final(self)@ == clean_next(old(self)@, reply),
            final(self)@.well_formed(),
    {
        proof {
            use_type_invariant(&*self);
        }
        match (self.stage, reply) {
            (CleanStage::List, Reply::Listed(r)) => match r {
                Ok(entries) => {
                    self.entries = entries;
                    self.go_on_from(0);
                },
                Err(cause) => {
                    let dir = self.dir.clone();
                    self.fail(error_about(Context::ListSnapshots, dir, Fault::Io(cause)));
                },
            },
            (CleanStage::Delete(i), Reply::Ran(r)) => match r {
                Ok(()) => {
                    assert(i < self.entries.len());
                    self.go_on_from(i + 1);
                },
                Err(e) => {
                    let path = self.path_at(i);
                    self.fail(error_about(Context::DeleteSnapshot, path, Fault::Command(e)));
                },
            },
            _ => {},
        }
        proof {
            use_type_invariant(&*self);
        }
    }

    /// The result of a clean-up that asks for nothing more.
    pub fn finish(self) -> (r: Result<(), BackupError>)
        requires
            self@.stage == CleanStage::Done,
        ensures
            match self@.failure {
                Some(e) => r matches Err(f) && f@ == e,
                None => r is Ok,
            },
    {
        match self.failure {
            Some(e) => Err(e),
            None => Ok(()),
        }
    }
}

/// Deletes every snapshot inside `snaps_dir` that is not `keep_name`: the entries
/// with the prefix of a full or an incremental backup, in the order in which they
/// are listed. Other entries are left alone.
///
/// Uses `btrfs subvolume delete` to remove each btrfs subvolume directory.
pub fn delete_old_snapshots(snaps_dir: &str, keep_name: &str) -> (r: CleanUp)
    ensures
        r@ == fresh_clean_up(snaps_dir@, keep_name@),
{
    CleanUp {
        dir: snaps_dir.to_owned(),
        keep: keep_name.to_owned(),
        stage: CleanStage::List,
        entries: Vec::new(),
        failure: None,
    }
}

/// What a full backup is about.
#[derive(Debug, PartialEq, Eq, Structural, Clone, Copy)]
pub enum FullStage {
    /// Write `in_progress:full` to the state file, with this timestamp.
    MarkFull(u64),
    /// Create the read-only snapshot on Disk A.
    Snapshot,
    /// Send it to Disk B.
    Send,
    /// Give the received snapshot its name.
    RenameReceived,
    /// Look for the `current` symlink.
    ProbeLink,
    /// Remove it.
    RemoveLink,
    /// Create it anew.
    MakeLink,
    /// Delete the old snapshots on Disk B.
    Clean,
    /// Look for the old base snapshot on Disk A.
    ProbeBase,
    /// Delete it.
    DeleteBase,
    /// Make the new snapshot the base.
    RotateBase,
    /// Upload the snapshot.
    Upload,
    /// Write `last_full_backup`, with this timestamp.
    RecordFull(u64),
    /// Write `idle` to the state file, with this timestamp.
    MarkIdle(u64),
    /// Nothing more.
    Done,
}

/// A full backup in progress.
#[derive(Debug)]
pub struct FullBackup<'a> {
    progress: Progress<'a>,
}

/// How far a full backup has got.
#[derive(Debug)]
struct Progress<'a> {
    config: &'a Config,
    stage: FullStage,
    name: String,
    clean: Option<CleanUp>,
    upload: Option<S3Upload<'a>>,
    failure: Option<BackupError>,
}

/// The state of a [`FullBackup`].
#[verifier::ext_equal]
pub struct FullView {
    pub config: Config,
    pub stage: FullStage,
    /// The name of the new snapshot, once it has one.
    pub name: Seq<char>,
    /// The clean-up, while it lasts.
    pub clean: Option<CleanView>,
    /// The upload, while it lasts.
    pub upload: Option<S3View>,
    pub failure: Option<BackupErrorView>,
}

impl<'a> View for FullBackup<'a> {
    type V = FullView;

    closed spec fn view(&self) -> FullView {
        self.progress@
    }
}

impl<'a> View for Progress<'a> {
    type V = FullView;

    closed spec fn view(&self) -> FullView {
        FullView {
            config: *self.config,
            stage: self.stage,
            name: self.name@,
            clean: match self.clean {
                Some(c) => Some(c@),
                None => None,
            },
            upload: match self.upload {
                Some(u) => Some(u@),
                None => None,
            },
            failure: error_view(self.failure),
        }
    }
}

impl FullStage {
    /// The position of the stage in a full backup.
    pub open spec fn rank(self) -> int {
        match self {
            FullStage::MarkFull(_) => 0,
            FullStage::Snapshot => 1,
            FullStage::Send => 2,
            FullStage::RenameReceived => 3,
            FullStage::ProbeLink => 4,
            FullStage::RemoveLink => 5,
            FullStage::MakeLink => 6,
            FullStage::Clean => 7,
            FullStage::ProbeBase => 8,
            FullStage::DeleteBase => 9,
            FullStage::RotateBase => 10,
            FullStage::Upload => 11,
            FullStage::RecordFull(_) => 12,
            FullStage::MarkIdle(_) => 13,
            FullStage::Done => 14,
        }
    }
}

impl FullView {
    /// The new snapshot has its name from the moment it is received, the clean-up
    /// and the upload are there while they last, and a failed backup is over.
    pub open spec fn well_formed(self) -> bool {
        &&& self.failure is Some ==> self.stage == FullStage::Done
        &&& self.failure is None && self.stage.rank() >= 3 ==> is_snapshot_name(self.name)
        &&& self.stage == FullStage::Clean <==> self.clean is Some
        &&& self.stage == FullStage::Upload <==> self.upload is Some
    }

    /// The temporary snapshot on Disk A.
    pub open spec fn snap_tmp(self) -> Seq<char> {
        join(self.config.paths.source_path@, SNAP_TMP@)
    }

    /// The base snapshot on Disk A.
    pub open spec fn snap_base(self) -> Seq<char> {
        join(self.config.paths.source_path@, SNAP_BASE_FULL@)
    }

    /// The snapshots directory on Disk B.
    pub open spec fn snaps_dir(self) -> Seq<char> {
        snapshots_below(self.config.paths.backup_path@)
    }

    /// Where the snapshot is received on Disk B.
    pub open spec fn received(self) -> Seq<char> {
        join(self.snaps_dir(), SNAP_TMP@)
    }

    /// Where the snapshot stays on Disk B.
    pub open spec fn final_path(self) -> Seq<char> {
        join(self.snaps_dir(), self.name)
    }

    /// The `current` symlink on Disk B.
    pub open spec fn link(self) -> Seq<char> {
        join(self.config.paths.backup_path@, "current"@)
    }

    /// What the symlink points to, relative to the directory that it is in.
    pub open spec fn target(self) -> Seq<char> {
        join("snapshots"@, self.name)
    }
}

/// What a full backup asks for next.
pub open spec fn full_action(v: FullView) -> ActionView {
    match v.stage {
        FullStage::MarkFull(ts) => state_action(v.config.state.state_dir@, State::InProgress(Operation::Full), ts),
        FullStage::Snapshot => create_snapshot(v.config, v.snap_tmp()),
        FullStage::Send => ActionView::Pipe(transfer_steps(seq!["send"@, v.snap_tmp()], v.snaps_dir())),
        FullStage::RenameReceived => ActionView::Rename { from: v.received(), to: v.final_path() },
        FullStage::ProbeLink => ActionView::ProbeEntry { path: v.link() },
        FullStage::RemoveLink => ActionView::RemoveFile { path: v.link() },
        FullStage::MakeLink => ActionView::Symlink { target: v.target(), link: v.link() },
        FullStage::Clean => clean_action(v.clean->Some_0),
        FullStage::ProbeBase => ActionView::ProbeEntry { path: v.snap_base() },
        FullStage::DeleteBase => delete_subvolume(v.snap_base()),
        FullStage::RotateBase => ActionView::Rename { from: v.snap_tmp(), to: v.snap_base() },
        FullStage::Upload => s3_action(v.upload->Some_0),
        FullStage::RecordFull(ts) => write_action(
            v.config.state.state_dir@,
            "last_full_backup"@,
            decimal(ts as nat),
        ),
        FullStage::MarkIdle(ts) => state_action(v.config.state.state_dir@, State::Idle, ts),
        FullStage::Done => ActionView::Stop,
    }
}

/// A full backup that has failed with `e`.
pub open spec fn full_failed(v: FullView, e: BackupErrorView) -> FullView {
    FullView { stage: FullStage::Done, failure: Some(e), clean: None, upload: None, ..v }
}

/// A full backup that goes on with `stage` where the last step was done, and has
/// failed where it was not.
pub open spec fn full_step(v: FullView, e: Option<BackupErrorView>, stage: FullStage) -> FullView {
    match e {
        Some(e) => full_failed(v, e),
        None => FullView { stage, ..v },
    }
}

/// How a reply moves the clean-up of a full backup on.
pub open spec fn full_clean_next(v: FullView, reply: Reply) -> FullView {
    let c = clean_next(v.clean->Some_0, reply);
    if c.stage != CleanStage::Done {
        FullView { clean: Some(c), ..v }
    } else {
        match c.failure {
            Some(e) => full_failed(v, (BackupErrorView { part: Part::CleanUp, ..e })),
            None => FullView { clean: None, stage: FullStage::ProbeBase, ..v },
        }
    }
}

/// How a reply moves the upload of a full backup on.
pub open spec fn full_upload_next(v: FullView, reply: Reply, clock: Clock) -> FullView {
    let u = s3_next(v.upload->Some_0, reply, clock.now);
    if u.stage != S3Stage::Done {
        FullView { upload: Some(u), ..v }
    } else {
        match u.failure {
            Some(e) => full_failed(v, (BackupErrorView { part: Part::Upload, ..e })),
            None => match clock.now {
                Ok(ts) => FullView { upload: None, stage: FullStage::RecordFull(ts), ..v },
                Err(cause) => full_failed(v, bare(Context::ReadClock, Fault::Clock(cause))),
            },
        }
    }
}

/// How a reply moves a full backup on, at the time `clock`. A reply that does not
/// belong to what the backup has asked for leaves it as it is.
pub open spec fn full_next(v: FullView, reply: Reply, clock: Clock) -> FullView {
    match (v.stage, reply) {
        (FullStage::MarkFull(_), Reply::Written(r)) => full_step(
            v,
            write_error(Context::MarkFull, r),
            FullStage::Snapshot,
        ),
        (FullStage::Snapshot, Reply::Ran(r)) => full_step(v, command_error(Context::Snapshot, r), FullStage::Send),
        (FullStage::Send, Reply::Ran(r)) => match r {
            Err(e) => full_failed(v, bare(Context::Send, Fault::Command(e))),
            Ok(()) => if is_timestamp(clock.stamp@) {
                FullView { stage: FullStage::RenameReceived, name: FULL_PREFIX@ + clock.stamp@, ..v }
            } else {
                full_failed(
                    v,
                    bare(
                        Context::FullName,
                        Fault::Timestamp { stamp: clock.stamp, error: timestamp_fault(clock.stamp@) },
                    ),
                )
            },
        },
        (FullStage::RenameReceived, Reply::Done(r)) => full_step(
            v,
            io_error(Context::Rename, v.received(), v.final_path(), r),
            FullStage::ProbeLink,
        ),
        (FullStage::ProbeLink, Reply::Found(found)) => FullView {
            stage: if found {
                FullStage::RemoveLink
            } else {
                FullStage::MakeLink
            },
            ..v
        },
        (FullStage::RemoveLink, Reply::Done(r)) => full_step(
            v,
            io_error(Context::RemoveLink, v.link(), seq![], r),
            FullStage::MakeLink,
        ),
        (FullStage::MakeLink, Reply::Done(r)) => match r {
            Err(cause) => full_failed(v, between(Context::MakeLink, v.link(), v.target(), Fault::Io(cause))),
            Ok(()) => FullView {
                stage: FullStage::Clean,
                clean: Some(fresh_clean_up(v.snaps_dir(), v.name)),
                ..v
            },
        },
        (FullStage::Clean, reply) => full_clean_next(v, reply),
        (FullStage::ProbeBase, Reply::Found(found)) => FullView {
            stage: if found {
                FullStage::DeleteBase
            } else {
                FullStage::RotateBase
            },
            ..v
        },
        (FullStage::DeleteBase, Reply::Ran(r)) => full_step(
            v,
            command_error(Context::DeleteBase, r),
            FullStage::RotateBase,
        ),
        (FullStage::RotateBase, Reply::Done(r)) => match r {
            Err(cause) => full_failed(v, between(Context::Rename, v.snap_tmp(), v.snap_base(), Fault::Io(cause))),
            Ok(()) => FullView {
                stage: FullStage::Upload,
                upload: Some(fresh_upload(v.config, v.name)),
                ..v
            },
        },
        (FullStage::Upload, reply) => full_upload_next(v, reply, clock),
        (FullStage::RecordFull(_), Reply::Written(r)) => match r {
            Err(e) => full_failed(v, bare(Context::RecordFull, Fault::Write(e))),
            Ok(()) => match clock.now {
                Ok(ts) => FullView { stage: FullStage::MarkIdle(ts), ..v },
                Err(cause) => full_failed(v, bare(Context::MarkIdle, Fault::Clock(cause))),
            },
        },
        (FullStage::MarkIdle(_), Reply::Written(r)) => full_step(
            v,
            write_error(Context::MarkIdle, r),
            FullStage::Done,
        ),
        _ => v,
    }
}

/// A full backup that has yet to do its first step, at the time `now`.
pub open spec fn full_start(config: Config, now: Reading) -> FullView {
    let v = FullView {
        config,
        stage: FullStage::Done,
        name: seq![],
        clean: None,
        upload: None,
        failure: None,
    };
    match now {
        Ok(ts) => FullView { stage: FullStage::MarkFull(ts), ..v },
        Err(cause) => full_failed(v, bare(Context::MarkFull, Fault::Clock(cause))),
    }
}

impl<'a> Progress<'a> {
    fn source_file(&self, name: &str) -> (r: String)
        ensures
            r@ == join(self@.config.paths.source_path@, name@),
    {
        joined_path(self.config.paths.source_path.as_str(), name)
    }

    fn snaps_dir(&self) -> (r: String)
        ensures
            r@ == self@.snaps_dir(),
    {
        snapshots_dir(self.config.paths.backup_path.as_str())
    }

    fn snaps_file(&self, name: &str) -> (r: String)
        ensures
            r@ == join(self@.snaps_dir(), name@),
    {
        joined_path(self.snaps_dir().as_str(), name)
    }

    fn link(&self) -> (r: String)
        ensures
            r@ == self@.link(),
    {
        current_symlink(self.config.paths.backup_path.as_str())
    }

    fn target(&self) -> (r: String)
        ensures
            r@ == self@.target(),
    {
        joined_path("snapshots", self.name.as_str())
    }

    fn action(&self) -> (r: Action)
        requires
            self@.well_formed(),
        ensures
            r@ == full_action(self@),
            r.is_fresh(),
    {
        let state_dir = self.config.state.state_dir.as_str();
        match self.stage {
            FullStage::MarkFull(ts) => state_write(state_dir, State::InProgress(Operation::Full), ts),
            FullStage::Snapshot => snapshot_creation(self.config, self.source_file(SNAP_TMP).as_str()),
            FullStage::Send => {
                let snap_tmp = self.source_file(SNAP_TMP);
                let snaps_dir = self.snaps_dir();
                let send: [&str; 2] = ["send", snap_tmp.as_str()];
                let r = transfer(&send, snaps_dir.as_str());
                assert(arg_texts(send@) =~= seq!["send"@, snap_tmp@]);
                r
            },
            FullStage::RenameReceived => Action::Rename {
                from: self.snaps_file(SNAP_TMP),
                to: self.snaps_file(self.name.as_str()),
            },
            FullStage::ProbeLink => Action::ProbeEntry { path: self.link() },
            FullStage::RemoveLink => Action::RemoveFile { path: self.link() },
            FullStage::MakeLink => Action::Symlink { target: self.target(), link: self.link() },
            FullStage::Clean => match &self.clean {
                Some(c) => c.action(),
                None => Action::Stop,
            },
            FullStage::ProbeBase => Action::ProbeEntry { path: self.source_file(SNAP_BASE_FULL) },
            FullStage::DeleteBase => subvolume_delete(self.source_file(SNAP_BASE_FULL).as_str()),
            FullStage::RotateBase => Action::Rename {
                from: self.source_file(SNAP_TMP),
                to: self.source_file(SNAP_BASE_FULL),
            },
            FullStage::Upload => match &self.upload {
                Some(u) => u.action(),
                None => Action::Stop,
            },
            FullStage::RecordFull(ts) => Action::Write(Timestamps::write_full(state_dir, ts)),
            FullStage::MarkIdle(ts) => state_write(state_dir, State::Idle, ts),
            FullStage::Done => Action::Stop,
        }
    }

    fn fail(&mut self, e: BackupError)
        ensures
            final(self)@ == full_failed(old(self)@, e@),
    {
        self.stage = FullStage::Done;
        self.clean = None;
        self.upload = None;
        self.failure = Some(e);
    }

    fn after_write(&mut self, context: Context, r: Result<(), WriteError>, stage: FullStage)
        ensures
            final(self)@ == full_step(old(self)@, write_error(context, r), stage),
    {
        match r {
            Ok(()) => {
                self.stage = stage;
            },
            Err(e) => {
                self.fail(bare_error(context, Fault::Write(e)));
            },
        }
    }

    fn after_command(&mut self, context: Context, r: Result<(), CommandError>, stage: FullStage)
        ensures
            final(self)@ == full_step(old(self)@, command_error(context, r), stage),
    {
        match r {
            Ok(()) => {
                self.stage = stage;
            },
            Err(e) => {
                self.fail(bare_error(context, Fault::Command(e)));
            },
        }
    }

    fn advance_clean_up(&mut self, reply: Reply)
        requires
            old(self)@.well_formed(),
            old(self)@.stage == FullStage::Clean,
        ensures
            final(self)@ == full_clean_next(old(self)@, reply),
    {
        if let Some(mut c) = self.clean.take() {
            c.advance(reply);
            if c.stage() == CleanStage::Done {
                match c.finish() {
                    Ok(()) => {
                        self.stage = FullStage::ProbeBase;
                    },
                    Err(e) => {
                        let mut e = e;
                        e.part = Part::CleanUp;
                        self.fail(e);
                    },
                }
            } else {
                self.clean = Some(c);
            }
        }
    }

    fn advance_upload(&mut self, reply: Reply, clock: Clock)
        requires
            old(self)@.well_formed(),
            old(self)@.stage == FullStage::Upload,
        ensures
            final(self)@ == full_upload_next(old(self)@, reply, clock),
    {
        if let Some(mut u) = self.upload.take() {
            u.advance(reply, same_reading(&clock.now));
            if u.stage() == S3Stage::Done {
                match u.finish() {
                    Ok(()) => match clock.now {
                        Ok(ts) => {
                            self.stage = FullStage::RecordFull(ts);
                        },
                        Err(cause) => {
                            self.fail(bare_error(Context::ReadClock, Fault::Clock(cause)));
                        },
                    },
                    Err(e) => {
                        let mut e = e;
                        e.part = Part::Upload;
                        self.fail(e);
                    },
                }
            } else {
                self.upload = Some(u);
            }
        }
    }

    fn advance(&mut self, reply: Reply, clock: Clock)
        requires
            old(self)@.well_formed(),
        ensures
            final(self)@ == full_next(old(self)@, reply, clock),
            final(self)@.well_formed(),
    {
        proof {
            full_next_keeps_well_formed(self@, reply, clock);
        }
        match (self.stage, reply) {
            (FullStage::MarkFull(_), Reply::Written(r)) => {
                self.after_write(Context::MarkFull, r, FullStage::Snapshot);
            },
            (FullStage::Snapshot, Reply::Ran(r)) => {
                self.after_command(Context::Snapshot, r, FullStage::Send);
            },
            (FullStage::Send, Reply::Ran(r)) => match r {
                Err(e) => {
                    self.fail(bare_error(Context::Send, Fault::Command(e)));
                },
                Ok(()) => match full_snapshot_name(clock.stamp.as_str()) {
                    Ok(name) => {
                        self.name = name;
                        self.stage = FullStage::RenameReceived;
                    },
                    Err(error) => {
                        let fault = Fault::Timestamp { stamp: clock.stamp, error };
                        self.fail(bare_error(Context::FullName, fault));
                    },
                },
            },
            (FullStage::RenameReceived, Reply::Done(r)) => match r {
                Err(cause) => {
                    let from = self.snaps_file(SNAP_TMP);
                    let to = self.snaps_file(self.name.as_str());
                    self.fail(error_between(Context::Rename, from, to, Fault::Io(cause)));
                },
                Ok(()) => {
                    self.stage = FullStage::ProbeLink;
                },
            },
            (FullStage::ProbeLink, Reply::Found(found)) => {
                self.stage = if found {
                    FullStage::RemoveLink
                } else {
                    FullStage::MakeLink
                };
            },
            (FullStage::RemoveLink, Reply::Done(r)) => match r {
                Err(cause) => {
                    let link = self.link();
                    self.fail(error_about(Context::RemoveLink, link, Fault::Io(cause)));
                },
                Ok(()) => {
                    self.stage = FullStage::MakeLink;
                },
            },
            (FullStage::MakeLink, Reply::Done(r)) => match r {
                Err(cause) => {
                    let link = self.link();
                    let target = self.target();
                    self.fail(error_between(Context::MakeLink, link, target, Fault::Io(cause)));
                },
                Ok(()) => {
                    let snaps_dir = self.snaps_dir();
                    self.clean = Some(delete_old_snapshots(snaps_dir.as_str(), self.name.as_str()));
                    self.stage = FullStage::Clean;
                },
            },
            (FullStage::Clean, reply) => {
                self.advance_clean_up(reply);
            },
            (FullStage::ProbeBase, Reply::Found(found)) => {
                self.stage = if found {
                    FullStage::DeleteBase
                } else {
                    FullStage::RotateBase
                };
            },
            (FullStage::DeleteBase, Reply::Ran(r)) => {
                self.after_command(Context::DeleteBase, r, FullStage::RotateBase);
            },
            (FullStage::RotateBase, Reply::Done(r)) => match r {
                Err(cause) => {
                    let from = self.source_file(SNAP_TMP);
                    let to = self.source_file(SNAP_BASE_FULL);
                    self.fail(error_between(Context::Rename, from, to, Fault::Io(cause)));
                },
                Ok(()) => {
                    self.upload = Some(run_s3_upload(self.config, self.name.as_str()).unwrap());
                    self.stage = FullStage::Upload;
                },
            },
            (FullStage::Upload, reply) => {
                self.advance_upload(reply, clock);
            },
            (FullStage::RecordFull(_), Reply::Written(r)) => match r {
                Err(e) => {
                    self.fail(bare_error(Context::RecordFull, Fault::Write(e)));
                },
                Ok(()) => match clock.now {
                    Ok(ts) => {
                        self.stage = FullStage::MarkIdle(ts);
                    },
                    Err(cause) => {
                        self.fail(bare_error(Context::MarkIdle, Fault::Clock(cause)));
                    },
                },
            },
            (FullStage::MarkIdle(_), Reply::Written(r)) => {
                self.after_write(Context::MarkIdle, r, FullStage::Done);
            },
            _ => {},
        }
    }
}

impl<'a> FullBackup<'a> {
    #[verifier::type_invariant]
    spec fn type_inv(self) -> bool {
        self@.well_formed()
    }

    /// What the backup is about.
    pub fn stage(&self) -> (r: FullStage)
        ensures
            r == self@.stage,
            self@.well_formed(),
    {
        proof {
            use_type_invariant(self);
        }
        self.progress.stage
    }

    /// The upload, while it lasts.
    pub fn upload(&self) -> (r: Option<&S3Upload<'a>>)
        ensures
            match r {
                Some(u) => self@.upload == Some(u@),
                None => self@.upload is None,
            },
    {
        self.progress.upload.as_ref()
    }

    /// What the backup asks for next.
    pub fn action(&self) -> (r: Action)
        ensures
            r@ == full_action(self@),
            r.is_fresh(),
    {
        proof {
            use_type_invariant(self);
        }
        self.progress.action()
    }

    /// Takes note of what came of the last action, at the time `clock`.
    pub fn advance(&mut self, reply: Reply, clock: Clock)
        ensures
            final(self)@ == full_next(old(self)@, reply, clock),
            final(self)@.well_formed(),
    {
        proof {
            use_type_invariant(&*self);
        }
        let mut progress = Progress {
            config: self.progress.config,
            stage: FullStage::MarkFull(0),
            name: String::new(),
            clean: None,
            upload: None,
            failure: None,
        };
        std::mem::swap(&mut progress, &mut self.progress);
        progress.advance(reply, clock);
        self.progress = progress;
    }

    /// The result of a backup that asks for nothing more.
    pub fn finish(self) -> (r: Result<(), BackupError>)
        requires
            self@.stage == FullStage::Done,
        ensures
            match self@.failure {
                Some(e) => r matches Err(f) && f@ == e,
                None => r is Ok,
            },
    {
        match self.progress.failure {
            Some(e) => Err(e),
            None => Ok(()),
        }
    }
}

/// A full backup stays well-formed.
pub proof fn full_next_keeps_well_formed(v: FullView, reply: Reply, clock: Clock)
    requires
        v.well_formed(),
    ensures
        full_next(v, reply, clock).well_formed(),
{
    if is_timestamp(clock.stamp@) {
        snapshot_names_are_those_of_backups(FULL_PREFIX@ + clock.stamp@);
    }
}

/// Performs a full btrfs snapshot backup:
///
/// 1. Writes state `in_progress:full`.
/// 2. Creates a read-only snapshot of the source subvolume on Disk A as `.snap_tmp`.
/// 3. Sends the snapshot to Disk B via `btrfs send | btrfs receive`.
/// 4. Renames the received snapshot to `full_<ts>`.
/// 5. Updates the `current` symlink on Disk B.
/// 6. Deletes old snapshots on Disk B (all snapshots except the new full one).
/// 7. On Disk A: removes the old `.snap_base_full` (if present) and renames
///    `.snap_tmp` to `.snap_base_full`.
/// 8. Initiates the S3 upload for the new full snapshot.
/// 9. Records the `last_full_backup` timestamp and writes state `idle`.
///
/// The backup that is returned asks for these steps one after another.
pub fn run_full_backup<'a>(config: &'a Config) -> (r: FullBackup<'a>)
    ensures
        exists|now: Reading| is_reading(now) && r@ == #[trigger] full_start(*config, now),
        r@.well_formed(),
{
    full_backup_at(config, current_unix_ts())
}

/// Performs a full backup that starts at the time `now`.
pub fn full_backup_at<'a>(config: &'a Config, now: Reading) -> (r: FullBackup<'a>)
    ensures
        r@ == full_start(*config, now),
        r@.well_formed(),
{
    let mut progress = Progress {
        config,
        stage: FullStage::Done,
        name: String::new(),
        clean: None,
        upload: None,
        failure: None,
    };
    match now {
        Ok(ts) => {
            progress.stage = FullStage::MarkFull(ts);
        },
        Err(cause) => {
            progress.fail(bare_error(Context::MarkFull, Fault::Clock(cause)));
        },
    }
    FullBackup { progress }
}

} // verus!
