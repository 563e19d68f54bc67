//! What a backup asks for, one action after another, and what it makes of each
//! answer.

use vstd::prelude::*;

use crate::backup::action::{Action, ActionView, Reply};
use crate::backup::conduct::{incr_rank, s3_rank};
use crate::backup::error::{BackupErrorView, Context, Fault, Part};
use crate::backup::full::{
    clean_action, clean_next, fresh_clean_up, full_action, full_next, full_start, next_old, next_old_bounds,
    CleanStage, CleanView, Entry, FullStage, FullView,
};
use crate::backup::incremental::{incr_action, incr_next, incr_start, IncrStage, IncrView};
use crate::backup::s3::{expired, fresh_upload, s3_action, s3_next, S3Stage, S3View};
use crate::clock::{Clock, Reading};
use crate::cmd::{Command, CommandView, PipeStage};
use crate::config::Config;
use crate::number::decimal;
use crate::path::{join, tmp_sibling};
use crate::snapshot::{is_timestamp, timestamp_fault};
use crate::state::{Operation, State, WriteStage};

verus! {

/// Whether `reply` is of the kind that answers `action`.
pub open spec fn answers(action: ActionView, reply: Reply) -> bool {
    match action {
        ActionView::Write { .. } => reply is Written,
        ActionView::Run(_) | ActionView::Pipe(_) => reply is Ran,
        ActionView::Capture(_) => reply is Captured,
        ActionView::Rename { .. } | ActionView::RemoveFile { .. } | ActionView::Symlink { .. } => reply is Done,
        ActionView::ProbeFile { .. } | ActionView::ProbeTarget { .. } | ActionView::ProbeEntry { .. } => reply is Found,
        ActionView::ListDir { .. } => reply is Listed,
        ActionView::Stop => false,
    }
}

/// Why the action that `reply` answers failed, if it did.
pub open spec fn fault_of(reply: Reply) -> Option<Fault> {
    match reply {
        Reply::Written(Err(e)) => Some(Fault::Write(e)),
        Reply::Ran(Err(e)) => Some(Fault::Command(e)),
        Reply::Captured(Err(e)) => Some(Fault::Command(e)),
        Reply::Done(Err(cause)) => Some(Fault::Io(cause)),
        Reply::Listed(Err(cause)) => Some(Fault::Io(cause)),
        _ => None,
    }
}

/// The text of an action is that of its fields, each in its place; a write and a
/// pipeline count as they were before the first step.
pub proof fn actions_read_field_by_field(a: Action)
    ensures
        match a {
            Action::Write(w) => {
                &&& a@ == (ActionView::Write { path: w.path@, tmp_path: w.tmp_path@, content: w.content@ })
                &&& a.is_fresh() ==> w.stage == WriteStage::Create && w.failure is None
            },
            Action::Run(c) => a@ == ActionView::Run(c@),
            Action::Pipe(p) => {
                &&& a@ == ActionView::Pipe(p@.steps.map_values(|c: Command| c@))
                &&& a.is_fresh() ==> p@.stage == PipeStage::Spawn(0) && p@.failure is None
            },
            Action::Capture(c) => a@ == ActionView::Capture(c@),
            Action::Rename { from, to } => a@ == (ActionView::Rename { from: from@, to: to@ }),
            Action::RemoveFile { path } => a@ == (ActionView::RemoveFile { path: path@ }),
            Action::Symlink { target, link } => a@ == (ActionView::Symlink { target: target@, link: link@ }),
            Action::ProbeFile { path } => a@ == (ActionView::ProbeFile { path: path@ }),
            Action::ProbeTarget { path } => a@ == (ActionView::ProbeTarget { path: path@ }),
            Action::ProbeEntry { path } => a@ == (ActionView::ProbeEntry { path: path@ }),
            Action::ListDir { path } => a@ == (ActionView::ListDir { path: path@ }),
            Action::Stop => a@ == ActionView::Stop,
        },
{
}

/// Replacing the file `name` in `dir` by `content`.
pub open spec fn replace_file(dir: Seq<char>, name: Seq<char>, content: Seq<char>) -> ActionView {
    ActionView::Write { path: join(dir, name), tmp_path: tmp_sibling(join(dir, name)), content }
}

/// Running `btrfs` with `args`, in the inherited environment.
pub open spec fn run_btrfs(args: Seq<Seq<char>>) -> ActionView {
    ActionView::Run(CommandView { program: "btrfs"@, args, env: seq![] })
}

/// `program` with `args`, under the AWS profile of `config` where it has one.
pub open spec fn with_profile(config: Config, program: Seq<char>, args: Seq<Seq<char>>) -> CommandView {
    CommandView {
        program,
        args,
        env: match config.s3.aws_profile {
            Some(profile) => seq![("AWS_PROFILE"@, profile@)],
            None => seq![],
        },
    }
}

/// Every time that a backup or an upload writes down is the reading of the clock
/// that came with the answer before it. Where the clock could not be read, it fails
/// for that reason instead.
pub proof fn times_are_those_of_the_answers(u: S3View, f: FullView, v: IncrView, reply: Reply, clock: Clock)
    requires
        u.failure is None,
        f.failure is None,
        v.failure is None,
        f.stage != FullStage::Clean,
        f.stage != FullStage::Upload,
    ensures
        ({
            let next = s3_next(u, reply, clock.now);
            &&& next.stage is MarkUpload && u.stage !is MarkUpload ==> clock.now == Ok::<u64, String>(
                next.stage->MarkUpload_0,
            )
            &&& next.stage is MarkIdle && u.stage !is MarkIdle ==> clock.now == Ok::<u64, String>(
                next.stage->MarkIdle_0,
            )
            &&& next.failure is Some && fault_of(reply) is None && reply != Reply::Found(false) ==> (clock.now matches Err(
                cause,
            ) && next.failure->Some_0.fault == Fault::Clock(cause))
        }),
        ({
            let next = full_next(f, reply, clock);
            &&& next.stage is MarkIdle && f.stage !is MarkIdle ==> clock.now == Ok::<u64, String>(
                next.stage->MarkIdle_0,
            )
            &&& next.failure is Some && fault_of(reply) is None && f.stage != FullStage::Send ==> (clock.now matches Err(
                cause,
            ) && next.failure->Some_0.fault == Fault::Clock(cause))
        }),
        ({
            let next = incr_next(v, reply, clock.now);
            &&& next.stage is RecordIncremental && v.stage !is RecordIncremental ==> clock.now == Ok::<u64, String>(
                next.stage->RecordIncremental_0,
            )
            &&& next.stage is MarkIdle && v.stage !is MarkIdle ==> clock.now == Ok::<u64, String>(
                next.stage->MarkIdle_0,
            )
            &&& next.failure is Some && fault_of(reply) is None && v.stage != IncrStage::ProbeBase ==> (
            clock.now matches Err(cause) && next.failure->Some_0.fault == Fault::Clock(cause))
        }),
{
}

// ---------------------------------------------------------------------------
// Uploads
// ---------------------------------------------------------------------------

/// An upload heeds nothing but the answer to what it has asked for. A failed action
/// ends it with the reason. An action that is done moves it on, unless it is the
/// look for a key file that is not there, or the clock cannot be read.
pub proof fn upload_heeds_the_answer(v: S3View, reply: Reply, now: Reading)
    requires
        v.well_formed(),
        v.failure is None,
        v.stage matches S3Stage::Delete(i) ==> i < usize::MAX,
    ensures
        ({
            let next = s3_next(v, reply, now);
            &&& !answers(s3_action(v), reply) ==> next == v
            &&& answers(s3_action(v), reply) && fault_of(reply) is Some ==> {
                &&& next.failure matches Some(e)
                &&& e.fault == fault_of(reply)->Some_0
                &&& s3_action(next) == ActionView::Stop
            }
            &&& answers(s3_action(v), reply) && fault_of(reply) is None && now is Ok && reply != Reply::Found(false)
                ==> {
                &&& next.failure is None
                &&& s3_rank(next.stage) > s3_rank(v.stage) || {
                    &&& v.stage is Delete
                    &&& next.stage == S3Stage::Delete((v.stage->Delete_0 + 1) as usize)
                }
            }
            &&& next.failure is Some ==> next.failure->Some_0.part == Part::Whole
        }),
{
}

/// An upload looks for the key file, marks the upload, streams the snapshot through
/// `tar`, `gpg` and `aws` to its object, and lists the bucket, in this order.
/// Without the key file it ends with an error that names it. `tar` packs the
/// snapshot of that name from the snapshots directory, `gpg` encrypts to the key.
pub proof fn upload_encrypts_and_sends_the_snapshot(config: Config, name: Seq<char>, ts: u64, now: Reading, then: Reading)
    ensures
        ({
            let probe = fresh_upload(config, name);
            let missing = s3_next(probe, Reply::Found(false), now);
            let mark = s3_next(probe, Reply::Found(true), Ok(ts));
            let stream = s3_next(mark, Reply::Written(Ok(())), now);
            let list = s3_next(stream, Reply::Ran(Ok(())), then);
            let key = config.gpg.public_key_file@;
            let bucket = config.s3.bucket@;
            &&& s3_action(probe) == (ActionView::ProbeFile { path: key })
            &&& missing.failure matches Some(e) && e.context == Context::MissingKey && e.subject == key && e.fault
                == Fault::Plain
            &&& s3_action(missing) == ActionView::Stop
            &&& s3_action(mark) == replace_file(
                config.state.state_dir@,
                "state"@,
                State::InProgress(Operation::S3Upload).file_text(ts),
            )
            &&& s3_action(stream) == ActionView::Pipe(
                seq![
                    with_profile(
                        config,
                        "tar"@,
                        seq!["-cf"@, "-"@, "-C"@, join(config.paths.backup_path@, "snapshots"@), name + "/"@],
                    ),
                    with_profile(
                        config,
                        "gpg"@,
                        seq!["--encrypt"@, "--recipient-file"@, key, "--output"@, "-"@],
                    ),
                    with_profile(
                        config,
                        "aws"@,
                        seq!["s3"@, "cp"@, "-"@, "s3://"@ + bucket + "/"@ + (name + ".tar.gpg"@)],
                    ),
                ],
            )
            &&& s3_action(list) == ActionView::Capture(
                with_profile(config, "aws"@, seq!["s3"@, "ls"@, "s3://"@ + bucket + "/"@]),
            )
            &&& list.failure is None
            &&& list.stage == S3Stage::List
            &&& list.config == config
        }),
{
    assert("s3://"@ + config.s3.bucket@ + "/"@ + seq![] =~= "s3://"@ + config.s3.bucket@ + "/"@);
}

/// An upload after the deletion of `n` objects, the last of them at the time `now`.
pub open spec fn after_deletions(v: S3View, n: nat, now: Reading) -> S3View
    decreases n,
{
    if n == 0 {
        v
    } else {
        s3_next(after_deletions(v, (n - 1) as nat, now), Reply::Ran(Ok(())), now)
    }
}

/// An upload that is told the listing of the bucket deletes each object of it that
/// exceeds the retention, one after the other, and no other one. Then it marks the
/// idle state, and is over.
pub proof fn upload_deletes_what_has_expired(v: S3View, listing: String, now: Reading, ts: u64, n: nat)
    requires
        v.stage == S3Stage::List,
        v.failure is None,
        now == Ok::<u64, String>(ts),
        expired(listing@, v.config.s3.retention_count).len() <= usize::MAX,
        n <= expired(listing@, v.config.s3.retention_count).len(),
    ensures
        ({
            let gone = expired(listing@, v.config.s3.retention_count);
            let told = s3_next(v, Reply::Captured(Ok(listing)), now);
            let w = after_deletions(told, n, now);
            let end = s3_next(w, Reply::Written(Ok(())), now);
            &&& w.failure is None
            &&& n < gone.len() ==> s3_action(w) == ActionView::Run(
                with_profile(
                    v.config,
                    "aws"@,
                    seq!["s3"@, "rm"@, "s3://"@ + v.config.s3.bucket@ + "/"@ + gone[n as int]],
                ),
            )
            &&& n == gone.len() ==> {
                &&& s3_action(w) == replace_file(v.config.state.state_dir@, "state"@, State::Idle.file_text(ts))
                &&& end.failure is None
                &&& s3_action(end) == ActionView::Stop
            }
        }),
{
    deletions_go_on(v, listing, now, ts, n);
}

proof fn deletions_go_on(v: S3View, listing: String, now: Reading, ts: u64, n: nat)
    requires
        v.stage == S3Stage::List,
        v.failure is None,
        now == Ok::<u64, String>(ts),
        expired(listing@, v.config.s3.retention_count).len() <= usize::MAX,
        n <= expired(listing@, v.config.s3.retention_count).len(),
    ensures
        ({
            let gone = expired(listing@, v.config.s3.retention_count);
            after_deletions(s3_next(v, Reply::Captured(Ok(listing)), now), n, now) == (S3View {
                doomed: gone,
                stage: if n < gone.len() {
                    S3Stage::Delete(n as usize)
                } else {
                    S3Stage::MarkIdle(ts)
                },
                ..v
            })
        }),
    decreases n,
{
    if n > 0 {
        deletions_go_on(v, listing, now, ts, (n - 1) as nat);
    }
}

// ---------------------------------------------------------------------------
// The deletion of old snapshots
// ---------------------------------------------------------------------------

/// A clean-up heeds nothing but the answer to what it has asked for. A failed action
/// ends it with the reason. An action that is done moves it on to a later entry, or
/// to the end; only an entry that could not be read makes it fail then.
pub proof fn clean_up_heeds_the_answer(v: CleanView, reply: Reply)
    requires
        v.well_formed(),
        v.failure is None,
        v.entries.len() <= usize::MAX,
    ensures
        ({
            let next = clean_next(v, reply);
            &&& !answers(clean_action(v), reply) ==> next == v
            &&& answers(clean_action(v), reply) && fault_of(reply) is Some ==> {
                &&& next.failure matches Some(e)
                &&& e.fault == fault_of(reply)->Some_0
                &&& clean_action(next) == ActionView::Stop
            }
            &&& answers(clean_action(v), reply) && fault_of(reply) is None ==> {
                ||| next.stage == CleanStage::Done
                ||| next.stage is Delete && (v.stage matches CleanStage::Delete(i) ==> i < next.stage->Delete_0)
            }
            &&& answers(clean_action(v), reply) && fault_of(reply) is None && next.failure is Some ==> {
                &&& next.failure->Some_0.context == Context::ReadEntry
                &&& next.failure->Some_0.subject == v.dir
                &&& exists|i: int|
                    0 <= i < next.entries.len() && (#[trigger] next.entries[i] matches Err(cause)
                        && next.failure->Some_0.fault == Fault::Io(cause))
            }
            &&& next.failure is Some ==> next.failure->Some_0.part == Part::Whole
        }),
{
    let next = clean_next(v, reply);
    match (v.stage, reply) {
        (CleanStage::List, Reply::Listed(Ok(entries))) => {
            assert(entries.len() == entries@.len());
            next_old_bounds(entries@, v.keep, 0);
            if next.failure is Some {
                let k = next_old(entries@, v.keep, 0);
                assert(next.entries[k] is Err);
            }
        },
        (CleanStage::Delete(i), Reply::Ran(Ok(()))) => {
            next_old_bounds(v.entries, v.keep, i + 1);
            if next.failure is Some {
                let k = next_old(v.entries, v.keep, i + 1);
                assert(next.entries[k] is Err);
            }
        },
        _ => {},
    }
}

/// Whether a clean-up that keeps `keep` leaves an entry alone: its name could be
/// read, and it is the kept one or begins with neither `full_` nor `incr_`.
pub open spec fn is_left_alone(entry: Entry, keep: Seq<char>) -> bool {
    entry matches Ok(name) && (name@ == keep || !("full_"@.is_prefix_of(name@) || "incr_"@.is_prefix_of(name@)))
}

/// A clean-up goes through the entries in the order of the list. The first one from
/// `from` on that it does not leave alone is at position `k`: where it could not be
/// read the clean-up fails, else it is deleted next. Where there is none the
/// clean-up has succeeded. Either way the entries before it are dealt with first.
pub proof fn clean_up_goes_through_the_list(v: CleanView, reply: Reply, entries: Seq<Entry>, from: int, k: int)
    requires
        v.failure is None,
        match (v.stage, reply) {
            (CleanStage::List, Reply::Listed(Ok(list))) => entries == list@ && from == 0,
            (CleanStage::Delete(i), Reply::Ran(Ok(()))) => entries == v.entries && from == i + 1,
            _ => false,
        },
        entries.len() <= usize::MAX,
        from <= k <= entries.len(),
        forall|i: int| from <= i < k ==> is_left_alone(#[trigger] entries[i], v.keep),
        k < entries.len() ==> !is_left_alone(entries[k], v.keep),
    ensures
        ({
            let next = clean_next(v, reply);
            &&& next.entries == entries
            &&& k == entries.len() ==> next.stage == CleanStage::Done && next.failure is None
            &&& k < entries.len() ==> match entries[k] {
                Ok(name) => {
                    &&& next.stage == CleanStage::Delete(k as usize)
                    &&& next.failure is None
                    &&& clean_action(next) == run_btrfs(seq!["subvolume"@, "delete"@, join(v.dir, name@)])
                },
                Err(cause) => {
                    &&& next.stage == CleanStage::Done
                    &&& next.failure matches Some(e)
                    &&& e.context == Context::ReadEntry
                    &&& e.subject == v.dir
                    &&& e.fault == Fault::Io(cause)
                },
            }
        }),
{
    next_old_is(entries, v.keep, from, k);
}

proof fn next_old_is(entries: Seq<Entry>, keep: Seq<char>, from: int, k: int)
    requires
        0 <= from <= k <= entries.len(),
        forall|i: int| from <= i < k ==> is_left_alone(#[trigger] entries[i], keep),
        k < entries.len() ==> !is_left_alone(entries[k], keep),
    ensures
        next_old(entries, keep, from) == k,
    decreases k - from,
{
    if from < k {
        assert(is_left_alone(entries[from], keep));
        next_old_is(entries, keep, from + 1, k);
    }
}

// ---------------------------------------------------------------------------
// Full backups
// ---------------------------------------------------------------------------

/// A full backup outside its clean-up and its upload heeds nothing but the answer
/// to what it has asked for. A failed action ends it with the reason. An action that
/// is done moves it on, as long as the clock can be read.
pub proof fn full_backup_heeds_the_answer(v: FullView, reply: Reply, clock: Clock)
    requires
        v.well_formed(),
        v.failure is None,
        v.stage != FullStage::Clean,
        v.stage != FullStage::Upload,
    ensures
        ({
            let next = full_next(v, reply, clock);
            &&& !answers(full_action(v), reply) ==> next == v
            &&& answers(full_action(v), reply) && fault_of(reply) is Some ==> {
                &&& next.failure matches Some(e)
                &&& e.fault == fault_of(reply)->Some_0
                &&& e.part == Part::Whole
                &&& full_action(next) == ActionView::Stop
            }
            &&& answers(full_action(v), reply) && fault_of(reply) is None && clock.now is Ok && is_timestamp(
                clock.stamp@,
            ) ==> {
                &&& next.failure is None
                &&& next.stage.rank() > v.stage.rank()
            }
            &&& next.config == v.config
        }),
{
}

/// The clean-up of a full backup asks for what a clean-up asks for and is told what
/// the backup is told. Its failure is the failure of the backup, and its success
/// lets the backup go on with the base snapshot.
pub proof fn full_backup_does_its_clean_up(v: FullView, reply: Reply, clock: Clock)
    requires
        v.well_formed(),
        v.stage == FullStage::Clean,
    ensures
        ({
            let c = v.clean->Some_0;
            let d = clean_next(c, reply);
            let next = full_next(v, reply, clock);
            &&& full_action(v) == clean_action(c)
            &&& d.stage != CleanStage::Done ==> next == (FullView { clean: Some(d), ..v })
            &&& d.stage == CleanStage::Done && d.failure is None ==> {
                &&& next.failure == v.failure
                &&& full_action(next) == (ActionView::ProbeEntry {
                    path: join(v.config.paths.source_path@, ".snap_base_full"@),
                })
            }
            &&& d.stage == CleanStage::Done && d.failure is Some ==> {
                &&& next.failure == Some(BackupErrorView { part: Part::CleanUp, ..d.failure->Some_0 })
                &&& full_action(next) == ActionView::Stop
            }
        }),
{
}

/// The upload of a full backup asks for what an upload asks for and is told what
/// the backup is told. Its failure is the failure of the backup. With its success
/// the backup records the time at which it succeeded.
pub proof fn full_backup_does_its_upload(v: FullView, reply: Reply, clock: Clock)
    requires
        v.well_formed(),
        v.stage == FullStage::Upload,
    ensures
        ({
            let u = v.upload->Some_0;
            let w = s3_next(u, reply, clock.now);
            let next = full_next(v, reply, clock);
            &&& full_action(v) == s3_action(u)
            &&& w.stage != S3Stage::Done ==> next == (FullView { upload: Some(w), ..v })
            &&& w.stage == S3Stage::Done && w.failure is Some ==> {
                &&& next.failure == Some(BackupErrorView { part: Part::Upload, ..w.failure->Some_0 })
                &&& full_action(next) == ActionView::Stop
            }
            &&& w.stage == S3Stage::Done && w.failure is None ==> match clock.now {
                Ok(ts) => {
                    &&& next.failure == v.failure
                    &&& full_action(next) == replace_file(
                        v.config.state.state_dir@,
                        "last_full_backup"@,
                        decimal(ts as nat),
                    )
                },
                Err(cause) => {
                    &&& next.failure matches Some(e)
                    &&& e.fault == Fault::Clock(cause)
                    &&& full_action(next) == ActionView::Stop
                },
            }
        }),
{
}

/// A full backup marks itself, takes a read-only snapshot of the source subvolume,
/// sends it to the snapshots directory on Disk B, and gives it the name `full_` with
/// the time at which it was received. Where that is no timestamp it ends.
pub proof fn full_backup_sends_the_whole_snapshot(
    config: Config,
    ts: u64,
    clock: Clock,
    later: Clock,
    received: Clock,
    cause: String,
)
    ensures
        ({
            let mark = full_start(config, Ok(ts));
            let unread = full_start(config, Err(cause));
            let snapshot = full_next(mark, Reply::Written(Ok(())), clock);
            let send = full_next(snapshot, Reply::Ran(Ok(())), later);
            let rename = full_next(send, Reply::Ran(Ok(())), received);
            let tmp = join(config.paths.source_path@, ".snap_tmp"@);
            let snaps = join(config.paths.backup_path@, "snapshots"@);
            let name = "full_"@ + received.stamp@;
            &&& unread.failure matches Some(e) && e.fault == Fault::Clock(cause)
            &&& full_action(unread) == ActionView::Stop
            &&& full_action(mark) == replace_file(
                config.state.state_dir@,
                "state"@,
                State::InProgress(Operation::Full).file_text(ts),
            )
            &&& full_action(snapshot) == run_btrfs(
                seq!["subvolume"@, "snapshot"@, "-r"@, config.subvolume(), tmp],
            )
            &&& full_action(send) == ActionView::Pipe(
                seq![
                    CommandView { program: "btrfs"@, args: seq!["send"@, tmp], env: seq![] },
                    CommandView { program: "btrfs"@, args: seq!["receive"@, snaps], env: seq![] },
                ],
            )
            &&& is_timestamp(received.stamp@) ==> {
                &&& rename.failure is None
                &&& rename.name == name
                &&& rename.stage == FullStage::RenameReceived
                &&& full_action(rename) == (ActionView::Rename {
                    from: join(snaps, ".snap_tmp"@),
                    to: join(snaps, name),
                })
            }
            &&& !is_timestamp(received.stamp@) ==> {
                &&& rename.failure matches Some(e)
                &&& e.fault == (Fault::Timestamp { stamp: received.stamp, error: timestamp_fault(received.stamp@) })
                &&& full_action(rename) == ActionView::Stop
            }
        }),
{
}

/// A full backup whose snapshot has its name makes the symlink `current` point to
/// it, by a path relative to the backup path, after it has removed the old one where
/// there is one. Then it cleans up the snapshots directory, but for this snapshot.
pub proof fn full_backup_links_its_snapshot(v: FullView, clock: Clock)
    requires
        v.stage == FullStage::RenameReceived,
        v.failure is None,
    ensures
        ({
            let look = full_next(v, Reply::Done(Ok(())), clock);
            let there = full_next(look, Reply::Found(true), clock);
            let gone = full_next(there, Reply::Done(Ok(())), clock);
            let absent = full_next(look, Reply::Found(false), clock);
            let linked = full_next(absent, Reply::Done(Ok(())), clock);
            let link = join(v.config.paths.backup_path@, "current"@);
            let snaps = join(v.config.paths.backup_path@, "snapshots"@);
            &&& full_action(look) == (ActionView::ProbeEntry { path: link })
            &&& full_action(there) == (ActionView::RemoveFile { path: link })
            &&& full_action(absent) == (ActionView::Symlink { target: join("snapshots"@, v.name), link })
            &&& gone == absent
            &&& linked.stage == FullStage::Clean
            &&& linked.failure is None
            &&& linked.name == v.name
            &&& linked.clean == Some(fresh_clean_up(snaps, v.name))
            &&& full_action(linked) == (ActionView::ListDir { path: snaps })
        }),
{
}

/// A full backup that has cleaned up makes its snapshot on Disk A the base, after it
/// has deleted the old base where there is one, and then uploads the snapshot on
/// Disk B.
pub proof fn full_backup_rotates_the_base(v: FullView, clock: Clock)
    requires
        v.stage == FullStage::ProbeBase,
        v.failure is None,
    ensures
        ({
            let there = full_next(v, Reply::Found(true), clock);
            let gone = full_next(there, Reply::Ran(Ok(())), clock);
            let absent = full_next(v, Reply::Found(false), clock);
            let rotated = full_next(absent, Reply::Done(Ok(())), clock);
            let tmp = join(v.config.paths.source_path@, ".snap_tmp"@);
            let base = join(v.config.paths.source_path@, ".snap_base_full"@);
            &&& full_action(there) == run_btrfs(seq!["subvolume"@, "delete"@, base])
            &&& full_action(absent) == (ActionView::Rename { from: tmp, to: base })
            &&& gone == absent
            &&& rotated.stage == FullStage::Upload
            &&& rotated.failure is None
            &&& rotated.upload == Some(fresh_upload(v.config, v.name))
        }),
{
}

/// A full backup whose time is recorded marks the idle state and is over.
pub proof fn full_backup_ends_idle(v: FullView, clock: Clock, ts: u64, later: Clock)
    requires
        v.stage is RecordFull,
        v.failure is None,
        clock.now == Ok::<u64, String>(ts),
    ensures
        ({
            let mark = full_next(v, Reply::Written(Ok(())), clock);
            let end = full_next(mark, Reply::Written(Ok(())), later);
            &&& full_action(mark) == replace_file(v.config.state.state_dir@, "state"@, State::Idle.file_text(ts))
            &&& end.failure is None
            &&& end.stage == FullStage::Done
            &&& full_action(end) == ActionView::Stop
        }),
{
}

// ---------------------------------------------------------------------------
// Incremental backups
// ---------------------------------------------------------------------------

/// An incremental backup heeds nothing but the answer to what it has asked for. A
/// failed action makes it fail with the reason. An action that is done moves it on,
/// unless it is the look for a base snapshot that is not there, or the clock cannot
/// be read.
pub proof fn incremental_backup_heeds_the_answer(v: IncrView, reply: Reply, now: Reading)
    requires
        v.failure is None,
        v.stage != IncrStage::CleanUp,
    ensures
        ({
            let next = incr_next(v, reply, now);
            &&& !answers(incr_action(v), reply) ==> next == v
            &&& answers(incr_action(v), reply) && fault_of(reply) is Some ==> {
                &&& next.failure matches Some(e)
                &&& e.fault == fault_of(reply)->Some_0
                &&& e.part == Part::Whole
                &&& next.stage == IncrStage::Done || next.stage == IncrStage::CleanUp
            }
            &&& answers(incr_action(v), reply) && fault_of(reply) is None && now is Ok && reply != Reply::Found(false)
                && is_timestamp(v.stamp@) ==> {
                &&& next.failure is None
                &&& incr_rank(next.stage) > incr_rank(v.stage)
            }
            &&& next.config == v.config
            &&& next.stamp == v.stamp
        }),
{
}

/// An incremental backup marks itself, takes a read-only snapshot of the source
/// subvolume, looks for the base snapshot, and sends the difference from it to the
/// snapshots directory on Disk B. There the snapshot gets the name `incr_` with the
/// time at which the backup was started.
pub proof fn incremental_backup_sends_the_difference(
    config: Config,
    clock: Clock,
    ts: u64,
    now: Reading,
    later: Reading,
    then: Reading,
    at_last: Reading,
)
    requires
        clock.now == Ok::<u64, String>(ts),
        is_timestamp(clock.stamp@),
    ensures
        ({
            let mark = incr_start(config, clock);
            let snapshot = incr_next(mark, Reply::Written(Ok(())), now);
            let look = incr_next(snapshot, Reply::Ran(Ok(())), later);
            let send = incr_next(look, Reply::Found(true), then);
            let rename = incr_next(send, Reply::Ran(Ok(())), at_last);
            let tmp = join(config.paths.source_path@, ".snap_tmp"@);
            let base = join(config.paths.source_path@, ".snap_base_full"@);
            let snaps = join(config.paths.backup_path@, "snapshots"@);
            &&& incr_action(mark) == replace_file(
                config.state.state_dir@,
                "state"@,
                State::InProgress(Operation::Incremental).file_text(ts),
            )
            &&& incr_action(snapshot) == run_btrfs(
                seq!["subvolume"@, "snapshot"@, "-r"@, config.subvolume(), tmp],
            )
            &&& incr_action(look) == (ActionView::ProbeTarget { path: base })
            &&& incr_action(send) == ActionView::Pipe(
                seq![
                    CommandView { program: "btrfs"@, args: seq!["send"@, "-p"@, base, tmp], env: seq![] },
                    CommandView { program: "btrfs"@, args: seq!["receive"@, snaps], env: seq![] },
                ],
            )
            &&& rename.stage == IncrStage::RenameReceived
            &&& rename.failure is None
            &&& rename.config == config
            &&& incr_action(rename) == (ActionView::Rename {
                from: join(snaps, ".snap_tmp"@),
                to: join(snaps, "incr_"@ + clock.stamp@),
            })
        }),
{
}

/// An incremental backup that cannot read the clock at its start asks for nothing.
/// One that was started at a time that is no timestamp ends when it has found the
/// base, and gives the text that is none.
pub proof fn incremental_backup_needs_the_time(config: Config, clock: Clock, v: IncrView, now: Reading)
    requires
        v.stage == IncrStage::ProbeBase,
        v.failure is None,
        !is_timestamp(v.stamp@),
    ensures
        clock.now matches Err(cause) ==> {
            &&& incr_start(config, clock).failure matches Some(e)
            &&& e.fault == Fault::Clock(cause)
            &&& incr_action(incr_start(config, clock)) == ActionView::Stop
        },
        ({
            let end = incr_next(v, Reply::Found(true), now);
            &&& end.failure matches Some(e)
            &&& e.fault == (Fault::Timestamp { stamp: v.stamp, error: timestamp_fault(v.stamp@) })
            &&& incr_action(end) == ActionView::Stop
        }),
{
}

/// An incremental backup whose snapshot has its name deletes the old base, makes its
/// snapshot on Disk A the base, records the time, and marks the idle state.
pub proof fn incremental_backup_rotates_the_base(
    v: IncrView,
    now: Reading,
    later: Reading,
    recorded: u64,
    idle: u64,
    then: Reading,
)
    requires
        v.stage == IncrStage::RenameReceived,
        v.failure is None,
    ensures
        ({
            let delete = incr_next(v, Reply::Done(Ok(())), now);
            let rotate = incr_next(delete, Reply::Ran(Ok(())), later);
            let record = incr_next(rotate, Reply::Done(Ok(())), Ok(recorded));
            let mark = incr_next(record, Reply::Written(Ok(())), Ok(idle));
            let end = incr_next(mark, Reply::Written(Ok(())), then);
            let tmp = join(v.config.paths.source_path@, ".snap_tmp"@);
            let base = join(v.config.paths.source_path@, ".snap_base_full"@);
            let dir = v.config.state.state_dir@;
            &&& incr_action(delete) == run_btrfs(seq!["subvolume"@, "delete"@, base])
            &&& incr_action(rotate) == (ActionView::Rename { from: tmp, to: base })
            &&& incr_action(record) == replace_file(dir, "last_incremental_backup"@, decimal(recorded as nat))
            &&& incr_action(mark) == replace_file(dir, "state"@, State::Idle.file_text(idle))
            &&& end.failure is None
            &&& end.stage == IncrStage::Done
            &&& incr_action(end) == ActionView::Stop
        }),
{
}

/// An incremental backup that misses its base, or fails from the transfer to the
/// rotation of the base, deletes its temporary snapshot on Disk A before it is over.
/// The failure is the one before that, whatever comes of the deletion. Any other
/// failure ends it at once.
pub proof fn incremental_backup_deletes_its_snapshot_on_failure(
    v: IncrView,
    reply: Reply,
    now: Reading,
    cleaned: Reply,
    then: Reading,
)
    requires
        v.failure is None,
        v.stage != IncrStage::CleanUp,
        answers(incr_action(v), reply),
        fault_of(reply) is Some || (v.stage == IncrStage::ProbeBase && reply == Reply::Found(false)),
    ensures
        ({
            let broken = incr_next(v, reply, now);
            let guarded = match v.stage {
                IncrStage::ProbeBase
                | IncrStage::Send
                | IncrStage::RenameReceived
                | IncrStage::DeleteBase
                | IncrStage::RotateBase => true,
                _ => false,
            };
            let end = incr_next(broken, cleaned, then);
            &&& broken.failure is Some
            &&& guarded ==> {
                &&& incr_action(broken) == run_btrfs(
                    seq!["subvolume"@, "delete"@, join(v.config.paths.source_path@, ".snap_tmp"@)],
                )
                &&& cleaned is Ran ==> incr_action(end) == ActionView::Stop
                &&& end.failure == broken.failure
            }
            &&& !guarded ==> incr_action(broken) == ActionView::Stop
            &&& v.stage == IncrStage::ProbeBase ==> {
                &&& broken.failure->Some_0.context == Context::MissingBase
                &&& broken.failure->Some_0.subject == join(v.config.paths.source_path@, ".snap_base_full"@)
            }
        }),
{
}

} // verus!
