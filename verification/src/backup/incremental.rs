//! Incremental backups.

use vstd::prelude::*;

use crate::backup::action::{
    create_snapshot, delete_subvolume, snapshot_creation, state_action, state_write, subvolume_delete, transfer,
    transfer_steps, write_action, Action, ActionView, Reply,
};
use crate::backup::error::{
    about, bare, bare_error, between, command_error, error_about, error_between, error_view, io_error, write_error,
    BackupError, BackupErrorView, Context, Fault,
};
use crate::clock::{Clock, Reading};
use crate::cmd::{arg_texts, CommandError};
use crate::config::Config;
use crate::number::decimal;
use crate::path::{join, joined_path};
use crate::snapshot::{
    incr_snapshot_name, is_timestamp, snapshots_below, snapshots_dir, timestamp_fault, INCR_PREFIX, SNAP_BASE_FULL,
    SNAP_TMP,
};
use crate::state::{Operation, State, Timestamps, WriteError};

verus! {

broadcast use vstd::string::group_string_axioms;

/// What an incremental backup is about.
#[derive(Debug, PartialEq, Eq, Structural, Clone, Copy)]
pub enum IncrStage {
    /// Write `in_progress:incremental` to the state file, with this timestamp.
    MarkIncremental(u64),
    /// Create the read-only snapshot on Disk A.
    Snapshot,
    /// Look for the base snapshot.
    ProbeBase,
    /// Send the difference from the base to Disk B.
    Send,
    /// Give the received snapshot its name.
    RenameReceived,
    /// Delete the old base snapshot.
    DeleteBase,
    /// Make the new snapshot the base.
    RotateBase,
    /// Delete the temporary snapshot of a backup that has failed.
    CleanUp,
    /// Write `last_incremental_backup`, with this timestamp.
    RecordIncremental(u64),
    /// Write `idle` to the state file, with this timestamp.
    MarkIdle(u64),
    /// Nothing more.
    Done,
}

/// An incremental backup in progress.
#[derive(Debug)]
pub struct IncrementalBackup<'a> {
    config: &'a Config,
    stamp: String,
    stage: IncrStage,
    name: String,
    failure: Option<BackupError>,
}

/// The state of an [`IncrementalBackup`].
#[verifier::ext_equal]
pub struct IncrView {
    pub config: Config,
    /// The time when the backup was started.
    pub stamp: String,
    pub stage: IncrStage,
    /// The name of the new snapshot, once it has one.
    pub name: Seq<char>,
    pub failure: Option<BackupErrorView>,
}

impl<'a> View for IncrementalBackup<'a> {
    type V = IncrView;

    closed spec fn view(&self) -> IncrView {
        IncrView {
            config: *self.config,
            stamp: self.stamp,
            stage: self.stage,
            name: self.name@,
            failure: error_view(self.failure),
        }
    }
}

impl IncrView {
    /// The temporary snapshot on Disk A.
    pub open spec fn snap_tmp(self) -> Seq<char> {
        join(self.config.paths.source_path@, SNAP_TMP@)
    }

    /// The base snapshot on Disk A.
    pub open spec fn snap_base(self) -> Seq<char> {
        join(self.config.paths.source_path@, SNAP_BASE_FULL@)
    }

    /// The snapshots directory on Disk B.
    pub open spec fn snaps_dir(self) -> Seq<char> {
        snapshots_below(self.config.paths.backup_path@)
    }

    /// Where the snapshot is received on Disk B.
    pub open spec fn received(self) -> Seq<char> {
        join(self.snaps_dir(), SNAP_TMP@)
    }

    /// Where the snapshot stays on Disk B.
    pub open spec fn final_path(self) -> Seq<char> {
        join(self.snaps_dir(), self.name)
    }
}

/// What an incremental backup asks for next.
pub open spec fn incr_action(v: IncrView) -> ActionView {
    match v.stage {
        IncrStage::MarkIncremental(ts) => state_action(
            v.config.state.state_dir@,
            State::InProgress(Operation::Incremental),
            ts,
        ),
        IncrStage::Snapshot => create_snapshot(v.config, v.snap_tmp()),
        IncrStage::ProbeBase => ActionView::ProbeTarget { path: v.snap_base() },
        IncrStage::Send => ActionView::Pipe(
            transfer_steps(seq!["send"@, "-p"@, v.snap_base(), v.snap_tmp()], v.snaps_dir()),
        ),
        IncrStage::RenameReceived => ActionView::Rename { from: v.received(), to: v.final_path() },
        IncrStage::DeleteBase => delete_subvolume(v.snap_base()),
        IncrStage::RotateBase => ActionView::Rename { from: v.snap_tmp(), to: v.snap_base() },
        IncrStage::CleanUp => delete_subvolume(v.snap_tmp()),
        IncrStage::RecordIncremental(ts) => write_action(
            v.config.state.state_dir@,
            "last_incremental_backup"@,
            decimal(ts as nat),
        ),
        IncrStage::MarkIdle(ts) => state_action(v.config.state.state_dir@, State::Idle, ts),
        IncrStage::Done => ActionView::Stop,
    }
}

/// An incremental backup that has failed with `e`.
pub open spec fn incr_failed(v: IncrView, e: BackupErrorView) -> IncrView {
    IncrView { stage: IncrStage::Done, failure: Some(e), ..v }
}

/// An incremental backup that has failed with `e` and has its temporary snapshot
/// to clean up.
pub open spec fn incr_broken(v: IncrView, e: BackupErrorView) -> IncrView {
    IncrView { stage: IncrStage::CleanUp, failure: Some(e), ..v }
}

/// An incremental backup that goes on with `stage` where the last step was done,
/// and has failed where it was not.
pub open spec fn incr_step(v: IncrView, e: Option<BackupErrorView>, stage: IncrStage) -> IncrView {
    match e {
        Some(e) => incr_failed(v, e),
        None => IncrView { stage, ..v },
    }
}

/// An incremental backup that goes on with `stage` where the last step was done,
/// and cleans up where it was not.
pub open spec fn incr_guarded(v: IncrView, e: Option<BackupErrorView>, stage: IncrStage) -> IncrView {
    match e {
        Some(e) => incr_broken(v, e),
        None => IncrView { stage, ..v },
    }
}

/// How a reply moves an incremental backup on, at the time `now`. A reply that
/// does not belong to what the backup has asked for leaves it as it is.
pub open spec fn incr_next(v: IncrView, reply: Reply, now: Reading) -> IncrView {
    match (v.stage, reply) {
        (IncrStage::MarkIncremental(_), Reply::Written(r)) => incr_step(
            v,
            write_error(Context::MarkIncremental, r),
            IncrStage::Snapshot,
        ),
        (IncrStage::Snapshot, Reply::Ran(r)) => incr_step(
            v,
            command_error(Context::Snapshot, r),
            IncrStage::ProbeBase,
        ),
        (IncrStage::ProbeBase, Reply::Found(found)) => if !found {
            incr_broken(v, about(Context::MissingBase, v.snap_base(), Fault::Plain))
        } else if is_timestamp(v.stamp@) {
            IncrView { stage: IncrStage::Send, name: INCR_PREFIX@ + v.stamp@, ..v }
        } else {
            incr_failed(
                v,
                bare(
                    Context::IncrementalName,
                    Fault::Timestamp { stamp: v.stamp, error: timestamp_fault(v.stamp@) },
                ),
            )
        },
        (IncrStage::Send, Reply::Ran(r)) => incr_guarded(
            v,
            command_error(Context::SendIncremental, r),
            IncrStage::RenameReceived,
        ),
        (IncrStage::RenameReceived, Reply::Done(r)) => incr_guarded(
            v,
            io_error(Context::Rename, v.received(), v.final_path(), r),
            IncrStage::DeleteBase,
        ),
        (IncrStage::DeleteBase, Reply::Ran(r)) => incr_guarded(
            v,
            command_error(Context::DeleteBase, r),
            IncrStage::RotateBase,
        ),
        (IncrStage::RotateBase, Reply::Done(r)) => match r {
            Err(cause) => incr_broken(v, between(Context::Rename, v.snap_tmp(), v.snap_base(), Fault::Io(cause))),
            Ok(()) => match now {
                Ok(ts) => IncrView { stage: IncrStage::RecordIncremental(ts), ..v },
                Err(cause) => incr_failed(v, bare(Context::ReadClock, Fault::Clock(cause))),
            },
        },
        (IncrStage::CleanUp, Reply::Ran(_)) => IncrView { stage: IncrStage::Done, ..v },
        (IncrStage::RecordIncremental(_), Reply::Written(r)) => match r {
            Err(e) => incr_failed(v, bare(Context::RecordIncremental, Fault::Write(e))),
            Ok(()) => match now {
                Ok(ts) => IncrView { stage: IncrStage::MarkIdle(ts), ..v },
                Err(cause) => incr_failed(v, bare(Context::MarkIdle, Fault::Clock(cause))),
            },
        },
        (IncrStage::MarkIdle(_), Reply::Written(r)) => incr_step(
            v,
            write_error(Context::MarkIdle, r),
            IncrStage::Done,
        ),
        _ => v,
    }
}

/// An incremental backup that has yet to do its first step, at the time `clock`.
pub open spec fn incr_start(config: Config, clock: Clock) -> IncrView {
    let v = IncrView { config, stamp: clock.stamp, stage: IncrStage::Done, name: seq![], failure: None };
    match clock.now {
        Ok(ts) => IncrView { stage: IncrStage::MarkIncremental(ts), ..v },
        Err(cause) => incr_failed(v, bare(Context::MarkIncremental, Fault::Clock(cause))),
    }
}

impl<'a> IncrementalBackup<'a> {
    /// What the backup is about.
    pub fn stage(&self) -> (r: IncrStage)
        ensures
            r == self@.stage,
    {
        self.stage
    }

    fn source_file(&self, name: &str) -> (r: String)
        ensures
            r@ == join(self@.config.paths.source_path@, name@),
    {
        joined_path(self.config.paths.source_path.as_str(), name)
    }

    fn snaps_file(&self, name: &str) -> (r: String)
        ensures
            r@ == join(self@.snaps_dir(), name@),
    {
        joined_path(snapshots_dir(self.config.paths.backup_path.as_str()).as_str(), name)
    }

    /// What the backup asks for next.
    pub fn action(&self) -> (r: Action)
        ensures
            r@ == incr_action(self@),
            r.is_fresh(),
    {
        let state_dir = self.config.state.state_dir.as_str();
        match self.stage {
            IncrStage::MarkIncremental(ts) => state_write(state_dir, State::InProgress(Operation::Incremental), ts),
            IncrStage::Snapshot => snapshot_creation(self.config, self.source_file(SNAP_TMP).as_str()),
            IncrStage::ProbeBase => Action::ProbeTarget { path: self.source_file(SNAP_BASE_FULL) },
            IncrStage::Send => {
                let snap_tmp = self.source_file(SNAP_TMP);
                let snap_base = self.source_file(SNAP_BASE_FULL);
                let snaps_dir = snapshots_dir(self.config.paths.backup_path.as_str());
                let send: [&str; 4] = ["send", "-p", snap_base.as_str(), snap_tmp.as_str()];
                let r = transfer(&send, snaps_dir.as_str());
                assert(arg_texts(send@) =~= seq!["send"@, "-p"@, snap_base@, snap_tmp@]);
                r
            },
            IncrStage::RenameReceived => Action::Rename {
                from: self.snaps_file(SNAP_TMP),
                to: self.snaps_file(self.name.as_str()),
            },
            IncrStage::DeleteBase => subvolume_delete(self.source_file(SNAP_BASE_FULL).as_str()),
            IncrStage::RotateBase => Action::Rename {
                from: self.source_file(SNAP_TMP),
                to: self.source_file(SNAP_BASE_FULL),
            },
            IncrStage::CleanUp => subvolume_delete(self.source_file(SNAP_TMP).as_str()),
            IncrStage::RecordIncremental(ts) => Action::Write(Timestamps::write_incremental(state_dir, ts)),
            IncrStage::MarkIdle(ts) => state_write(state_dir, State::Idle, ts),
            IncrStage::Done => Action::Stop,
        }
    }

    fn fail(&mut self, e: BackupError)
        ensures
            final(self)@ == incr_failed(old(self)@, e@),
    {
        self.stage = IncrStage::Done;
        self.failure = Some(e);
    }

    fn break_off(&mut self, e: BackupError)
        ensures
            final(self)@ == incr_broken(old(self)@, e@),
    {
        self.stage = IncrStage::CleanUp;
        self.failure = Some(e);
    }

    fn after_write(&mut self, context: Context, r: Result<(), WriteError>, stage: IncrStage)
        ensures
            final(self)@ == incr_step(old(self)@, write_error(context, r), stage),
    {
        match r {
            Ok(()) => {
                self.stage = stage;
            },
            Err(e) => {
                self.fail(bare_error(context, Fault::Write(e)));
            },
        }
    }

    fn after_guarded_command(&mut self, context: Context, r: Result<(), CommandError>, stage: IncrStage)
        ensures
            final(self)@ == incr_guarded(old(self)@, command_error(context, r), stage),
    {
        match r {
            Ok(()) => {
                self.stage = stage;
            },
            Err(e) => {
                self.break_off(bare_error(context, Fault::Command(e)));
            },
        }
    }

    /// Takes note of what came of the last action, at the time `now`.
    pub fn advance(&mut self, reply: Reply, now: Reading)
        ensures
            final(self)@ == incr_next(old(self)@, reply, now),
    {
        match (self.stage, reply) {
            (IncrStage::MarkIncremental(_), Reply::Written(r)) => {
                self.after_write(Context::MarkIncremental, r, IncrStage::Snapshot);
            },
            (IncrStage::Snapshot, Reply::Ran(r)) => match r {
                Ok(()) => {
                    self.stage = IncrStage::ProbeBase;
                },
                Err(e) => {
                    self.fail(bare_error(Context::Snapshot, Fault::Command(e)));
                },
            },
            (IncrStage::ProbeBase, Reply::Found(found)) => {
                if !found {
                    let base = self.source_file(SNAP_BASE_FULL);
                    self.break_off(error_about(Context::MissingBase, base, Fault::Plain));
                } else {
                    match incr_snapshot_name(self.stamp.as_str()) {
                        Ok(name) => {
                            self.name = name;
                            self.stage = IncrStage::Send;
                        },
                        Err(error) => {
                            let fault = Fault::Timestamp { stamp: self.stamp.clone(), error };
                            self.fail(bare_error(Context::IncrementalName, fault));
                        },
                    }
                }
            },
            (IncrStage::Send, Reply::Ran(r)) => {
                self.after_guarded_command(Context::SendIncremental, r, IncrStage::RenameReceived);
            },
            (IncrStage::RenameReceived, Reply::Done(r)) => match r {
                Ok(()) => {
                    self.stage = IncrStage::DeleteBase;
                },
                Err(cause) => {
                    let from = self.snaps_file(SNAP_TMP);
                    let to = self.snaps_file(self.name.as_str());
                    self.break_off(error_between(Context::Rename, from, to, Fault::Io(cause)));
                },
            },
            (IncrStage::DeleteBase, Reply::Ran(r)) => {
                self.after_guarded_command(Context::DeleteBase, r, IncrStage::RotateBase);
            },
            (IncrStage::RotateBase, Reply::Done(r)) => match r {
                Ok(()) => match now {
                    Ok(ts) => {
                        self.stage = IncrStage::RecordIncremental(ts);
                    },
                    Err(cause) => {
                        self.fail(bare_error(Context::ReadClock, Fault::Clock(cause)));
                    },
                },
                Err(cause) => {
                    let from = self.source_file(SNAP_TMP);
                    let to = self.source_file(SNAP_BASE_FULL);
                    self.break_off(error_between(Context::Rename, from, to, Fault::Io(cause)));
                },
            },
            (IncrStage::CleanUp, Reply::Ran(_)) => {
                self.stage = IncrStage::Done;
            },
            (IncrStage::RecordIncremental(_), Reply::Written(r)) => match r {
                Ok(()) => match now {
                    Ok(ts) => {
                        self.stage = IncrStage::MarkIdle(ts);
                    },
                    Err(cause) => {
                        self.fail(bare_error(Context::MarkIdle, Fault::Clock(cause)));
                    },
                },
                Err(e) => {
                    self.fail(bare_error(Context::RecordIncremental, Fault::Write(e)));
                },
            },
            (IncrStage::MarkIdle(_), Reply::Written(r)) => {
                self.after_write(Context::MarkIdle, r, IncrStage::Done);
            },
            _ => {},
        }
    }

    /// The result of a backup that asks for nothing more.
    pub fn finish(self) -> (r: Result<(), BackupError>)
        requires
            self@.stage == IncrStage::Done,
        ensures
            match self@.failure {
                Some(e) => r matches Err(f) && f@ == e,
                None => r is Ok,
            },
    {
        match self.failure {
            Some(e) => Err(e),
            None => Ok(()),
        }
    }
}

/// Performs an incremental btrfs snapshot backup:
///
/// 1. Writes state `in_progress:incremental`.
/// 2. Creates a read-only snapshot of the source subvolume on Disk A as `.snap_tmp`.
/// 3. Sends the incremental snapshot to Disk B via
///    `btrfs send -p .snap_base_full .snap_tmp | btrfs receive`.
/// 4. Renames the received snapshot to `incr_<ts>`.
/// 5. On Disk A: removes the old `.snap_base_full` and renames `.snap_tmp` to
///    `.snap_base_full`.
/// 6. Records the `last_incremental_backup` timestamp.
/// 7. Writes state `idle`.
///
/// The name reflects when the backup was started. The backup that is returned
/// asks for these steps one after another.
pub fn run_incremental_backup<'a>(config: &'a Config) -> (r: IncrementalBackup<'a>)
    ensures
        exists|clock: Clock| clock.is_read() && r@ == #[trigger] incr_start(*config, clock),
{
    incremental_backup_at(config, Clock::read())
}

/// Performs an incremental backup that starts at the time `clock`.
pub fn incremental_backup_at<'a>(config: &'a Config, clock: Clock) -> (r: IncrementalBackup<'a>)
    ensures
        r@ == incr_start(*config, clock),
{
    let mut r = IncrementalBackup {
        config,
        stamp: clock.stamp,
        stage: IncrStage::Done,
        name: String::new(),
        failure: None,
    };
    match clock.now {
        Ok(ts) => {
            r.stage = IncrStage::MarkIncremental(ts);
        },
        Err(cause) => {
            r.fail(bare_error(Context::MarkIncremental, Fault::Clock(cause)));
        },
    }
    r
}

} // verus!
