//! Checks that both disks are what a backup needs.

use vstd::prelude::*;
use vstd::utf8::encode_utf8;

use crate::cmd::{run, shown, show, Command, CommandView, Outcome};
use crate::config::Config;
use crate::number::{decimal_int, signed_text};
use crate::path::{path_starts_with, starts_with};
use crate::text::{joined, lines, same_text, split_lines, split_words, texts, words};

verus! {

broadcast use vstd::string::group_string_axioms;

/// A line of `/proc/mounts`: the device, the mount point, the filesystem type.
pub type Mount = (String, String, String);

/// The text of a mount.
pub type MountText = (Seq<char>, Seq<char>, Seq<char>);

/// The text of a list of mounts.
pub open spec fn mount_texts(mounts: Seq<Mount>) -> Seq<MountText> {
    mounts.map_values(|m: Mount| (m.0@, m.1@, m.2@))
}

/// What a line of `/proc/mounts` adds: its first three words, or nothing where it
/// has fewer.
pub open spec fn line_mount(line: Seq<char>) -> Seq<MountText> {
    if words(line).len() >= 3 {
        seq![(words(line)[0], words(line)[1], words(line)[2])]
    } else {
        seq![]
    }
}

/// The mounts of a list of lines, in order.
pub open spec fn line_mounts(ls: Seq<Seq<char>>) -> Seq<MountText>
    decreases ls.len(),
{
    if ls.len() == 0 {
        seq![]
    } else {
        line_mounts(ls.drop_last()) + line_mount(ls.last())
    }
}

/// Parses the text content of `/proc/mounts` (or a compatible format) into
/// `(device, mount_point, fs_type)` triples.
///
/// Lines that do not have at least three whitespace-separated fields are
/// silently skipped.
pub fn parse_proc_mounts(contents: &str) -> (r: Vec<Mount>)
    ensures
        mount_texts(r@) == line_mounts(lines(contents@)),
{
    let ls = split_lines(contents);
    let mut out: Vec<Mount> = Vec::new();
    let mut i: usize = 0;
    assert(mount_texts(out@) =~= line_mounts(texts(ls@).take(0)));
    while i < ls.len()
        invariant
            i <= ls@.len(),
            mount_texts(out@) == line_mounts(texts(ls@).take(i as int)),
        decreases ls@.len() - i,
    {
        let fields = split_words(ls[i].as_str());
        let ghost line = texts(ls@)[i as int];
        assert(texts(ls@).take(i + 1).drop_last() =~= texts(ls@).take(i as int));
        assert(words(line) == texts(fields@));
        let ghost before = mount_texts(out@);
        if fields.len() >= 3 {
            let mount = (fields[0].clone(), fields[1].clone(), fields[2].clone());
            out.push(mount);
            assert(mount_texts(out@) =~= before + line_mount(line));
        } else {
            assert(before =~= before + line_mount(line));
        }
        i += 1;
    }
    assert(texts(ls@).take(i as int) =~= texts(ls@));
    out
}

/// Whether the filesystem mounted as `m` covers `path`.
pub open spec fn covers(m: MountText, path: Seq<char>) -> bool {
    starts_with(path, m.1)
}

/// The length of the mount point of `m` in bytes.
pub open spec fn point_len(m: MountText) -> nat {
    encode_utf8(m.1).len()
}

/// Whether the mount at `i` is the one that `path` is on: no mount that covers
/// `path` has a longer mount point, and of those with the same length it is the
/// last one listed.
pub open spec fn is_mount_of(mounts: Seq<MountText>, path: Seq<char>, i: int) -> bool {
    &&& 0 <= i < mounts.len()
    &&& covers(mounts[i], path)
    &&& forall|k: int|
        0 <= k < mounts.len() && covers(#[trigger] mounts[k], path) ==> {
            ||| point_len(mounts[k]) < point_len(mounts[i])
            ||| point_len(mounts[k]) == point_len(mounts[i]) && k <= i
        }
}

/// Whether the mount that `path` is on is a btrfs filesystem.
pub open spec fn on_btrfs(mounts: Seq<MountText>, path: Seq<char>) -> bool {
    exists|i: int| #[trigger] is_mount_of(mounts, path, i) && mounts[i].2 == "btrfs"@
}

/// A path is on one mount at most.
pub proof fn only_one_mount(mounts: Seq<MountText>, path: Seq<char>, i: int, k: int)
    requires
        is_mount_of(mounts, path, i),
        is_mount_of(mounts, path, k),
    ensures
        i == k,
{
    assert(covers(mounts[i], path));
    assert(covers(mounts[k], path));
}

/// Returns `true` if `path` is covered by any btrfs mount in `mounts`.
///
/// A mount covers `path` if `path` starts with the mount point. When multiple
/// mounts match (e.g. `/` and `/mnt/backup`), the one with the longest matching
/// prefix wins; `path` is considered to be on btrfs only if that best match has
/// type `btrfs`.
pub fn path_is_on_btrfs(path: &str, mounts: &[Mount]) -> (r: bool)
    ensures
        r == on_btrfs(mount_texts(mounts@), path@),
{
    let ghost all = mount_texts(mounts@);
    let mut best: Option<usize> = None;
    let mut i: usize = 0;
    while i < mounts.len()
        invariant
            i <= mounts@.len(),
            all == mount_texts(mounts@),
            match best {
                Some(b) => b < i && is_mount_of(all.take(i as int), path@, b as int),
                None => forall|k: int| 0 <= k < i ==> !covers(#[trigger] all[k], path@),
            },
        decreases mounts@.len() - i,
    {
        let ghost seen = all.take(i as int);
        let ghost more = all.take(i + 1);
        assert(forall|k: int| 0 <= k < i ==> seen[k] == #[trigger] more[k]);
        assert(more[i as int] == all[i as int]);
        if path_starts_with(path, mounts[i].1.as_str()) {
            let better = match best {
                Some(b) => mounts[i].1.as_str().as_bytes().len() >= mounts[b].1.as_str().as_bytes().len(),
                None => true,
            };
            if better {
                assert(is_mount_of(more, path@, i as int)) by {
                    assert forall|k: int| 0 <= k < i && covers(#[trigger] more[k], path@) implies point_len(more[k])
                        <= point_len(more[i as int]) by {
                        assert(covers(seen[k], path@));
                        assert(covers(all[k], path@));
                    }
                }
                best = Some(i);
            } else {
                assert(is_mount_of(more, path@, best->0 as int));
            }
        } else {
            if let Some(b) = best {
                assert(is_mount_of(more, path@, b as int));
            }
        }
        i += 1;
    }
    assert(all.take(i as int) =~= all);
    match best {
        Some(b) => {
            proof {
                if on_btrfs(all, path@) {
                    let w = choose|w: int| #[trigger] is_mount_of(all, path@, w) && all[w].2 == "btrfs"@;
                    only_one_mount(all, path@, w, b as int);
                }
            }
            same_text(mounts[b].2.as_str(), "btrfs")
        },
        None => false,
    }
}

/// Why a disk is not what a backup needs.
#[derive(Debug)]
pub enum ValidationError {
    /// `btrfs subvolume show` could not be spawned.
    SourceSpawn { path: String, cause: String },
    /// The source is no btrfs subvolume.
    NotSubvolume { path: String, code: i32, stderr: Vec<u8> },
    /// `/proc/mounts` could not be read.
    MountsUnreadable { cause: String },
    /// The backup path is not on a btrfs filesystem.
    NotBtrfs { path: String },
}

impl ValidationError {
    /// The message of the error, with its cause behind a colon.
    pub open spec fn text(self) -> Seq<char> {
        match self {
            ValidationError::SourceSpawn { path, cause } => "failed to spawn 'btrfs subvolume show' for path: "@
                + path@ + ": "@ + cause@,
            ValidationError::NotSubvolume { path, code, stderr } => "path '"@ + path@
                + "' is not a btrfs subvolume (exit code "@ + decimal_int(code as int) + "): "@ + shown(stderr@),
            ValidationError::MountsUnreadable { cause } =>
                "failed to read /proc/mounts for filesystem validation: failed to read /proc/mounts: "@ + cause@,
            ValidationError::NotBtrfs { path } => "backup path '"@ + path@
                + "' is not on a btrfs filesystem; Disk B must be formatted as btrfs to receive snapshots"@,
        }
    }

    /// Returns the message of the error.
    pub fn message(&self) -> (r: String)
        ensures
            r@ == self.text(),
    {
        let mut out = String::new();
        match self {
            ValidationError::SourceSpawn { path, cause } => {
                out.append("failed to spawn 'btrfs subvolume show' for path: ");
                out.append(path.as_str());
                out.append(": ");
                out.append(cause.as_str());
            },
            ValidationError::NotSubvolume { path, code, stderr } => {
                out.append("path '");
                out.append(path.as_str());
                out.append("' is not a btrfs subvolume (exit code ");
                out.append(signed_text(*code).as_str());
                out.append("): ");
                out.append(show(stderr).as_str());
            },
            ValidationError::MountsUnreadable { cause } => {
                out.append("failed to read /proc/mounts for filesystem validation: failed to read /proc/mounts: ");
                out.append(cause.as_str());
            },
            ValidationError::NotBtrfs { path } => {
                out.append("backup path '");
                out.append(path.as_str());
                out.append("' is not on a btrfs filesystem; Disk B must be formatted as btrfs to receive snapshots");
            },
        }
        assert(out@ =~= self.text());
        out
    }
}

/// The question whether a path is a btrfs subvolume, put to
/// `btrfs subvolume show`.
#[derive(Debug)]
pub struct SourceCheck {
    pub path: String,
    pub command: Command,
}

/// What the outcome of `btrfs subvolume show` says of `path`.
pub open spec fn source_verdict(path: String, outcome: Outcome) -> Result<(), ValidationError> {
    match outcome {
        Outcome::NotSpawned(cause) => Err(ValidationError::SourceSpawn { path, cause }),
        Outcome::Exited(output) => if output.status.ok() {
            Ok(())
        } else {
            Err(
                ValidationError::NotSubvolume {
                    path,
                    code: match output.status.code {
                        Some(code) => code,
                        None => -1i32,
                    },
                    stderr: output.stderr,
                },
            )
        },
    }
}

/// Judges `path` by the outcome of `btrfs subvolume show`.
fn judge_source(path: String, outcome: Outcome) -> (r: Result<(), ValidationError>)
    ensures
        r == source_verdict(path, outcome),
{
    match outcome {
        Outcome::NotSpawned(cause) => Err(ValidationError::SourceSpawn { path, cause }),
        Outcome::Exited(output) => {
            if output.status.success() {
                return Ok(());
            }
            let code: i32 = match output.status.code {
                Some(code) => code,
                None => -1,
            };
            Err(ValidationError::NotSubvolume { path, code, stderr: output.stderr })
        },
    }
}

impl SourceCheck {
    /// `Ok(())` if the command exits with status 0, otherwise `Err` with the path
    /// and the captured stderr.
    pub fn finish(self, outcome: Outcome) -> (r: Result<(), ValidationError>)
        ensures
            r == source_verdict(self.path, outcome),
    {
        judge_source(self.path, outcome)
    }
}

/// The command that tells whether `path` is a btrfs subvolume.
pub open spec fn show_command(path: Seq<char>) -> CommandView {
    CommandView { program: "btrfs"@, args: seq!["subvolume"@, "show"@, path], env: seq![] }
}

/// Validates that `subvolume_path` is a btrfs subvolume by running
/// `btrfs subvolume show <subvolume_path>`.
pub fn validate_source(subvolume_path: &str) -> (r: SourceCheck)
    ensures
        r.path@ == subvolume_path@,
        r.command@ == show_command(subvolume_path@),
{
    let request = run("btrfs", &["subvolume", "show", subvolume_path]);
    assert(request.command@.args =~= seq!["subvolume"@, "show"@, subvolume_path@]);
    SourceCheck { path: subvolume_path.to_owned(), command: request.command }
}

/// Where the kernel lists what is mounted.
pub const PROC_MOUNTS: &'static str = "/proc/mounts";

/// The question whether a path is on a btrfs filesystem, put to `/proc/mounts`.
#[derive(Debug)]
pub struct BackupFsCheck {
    pub path: String,
    /// The file to read.
    pub mounts_file: String,
}

/// Whether the text of `/proc/mounts` puts `path` on a btrfs filesystem.
pub open spec fn listed_as_btrfs(contents: Seq<char>, path: Seq<char>) -> bool {
    on_btrfs(line_mounts(lines(contents)), path)
}

/// What reading `/proc/mounts` says of `path`.
pub open spec fn backup_fs_verdict(path: String, mounts: Result<String, String>) -> Result<(), ValidationError> {
    match mounts {
        Err(cause) => Err(ValidationError::MountsUnreadable { cause }),
        Ok(contents) => if listed_as_btrfs(contents@, path@) {
            Ok(())
        } else {
            Err(ValidationError::NotBtrfs { path })
        },
    }
}

/// Judges `path` by what reading `/proc/mounts` gave.
fn judge_backup_fs(path: String, mounts: Result<String, String>) -> (r: Result<(), ValidationError>)
    ensures
        r == backup_fs_verdict(path, mounts),
{
    match mounts {
        Err(cause) => Err(ValidationError::MountsUnreadable { cause }),
        Ok(contents) => {
            let list = parse_proc_mounts(contents.as_str());
            if path_is_on_btrfs(path.as_str(), list.as_slice()) {
                Ok(())
            } else {
                Err(ValidationError::NotBtrfs { path })
            }
        },
    }
}

impl BackupFsCheck {
    /// `Ok(())` if the mount that the path is on is a btrfs filesystem, otherwise
    /// `Err`.
    pub fn finish(self, mounts: Result<String, String>) -> (r: Result<(), ValidationError>)
        ensures
            r == backup_fs_verdict(self.path, mounts),
    {
        judge_backup_fs(self.path, mounts)
    }
}

/// Validates that `backup_path` is mounted on a btrfs filesystem, by what
/// `/proc/mounts` lists.
pub fn validate_backup_fs(backup_path: &str) -> (r: BackupFsCheck)
    ensures
        r.path@ == backup_path@,
        r.mounts_file@ == PROC_MOUNTS@,
{
    BackupFsCheck { path: backup_path.to_owned(), mounts_file: PROC_MOUNTS.to_owned() }
}

/// Which validation failed, and why.
#[derive(Debug)]
pub enum ValidationFailure {
    Source(ValidationError),
    Backup(ValidationError),
}

impl ValidationFailure {
    /// The message of the failure, with its cause behind a colon.
    pub open spec fn text(self) -> Seq<char> {
        match self {
            ValidationFailure::Source(e) => "source subvolume validation failed: "@ + e.text(),
            ValidationFailure::Backup(e) => "backup filesystem validation failed: "@ + e.text(),
        }
    }

    /// Returns the message of the failure.
    pub fn message(&self) -> (r: String)
        ensures
            r@ == self.text(),
    {
        match self {
            ValidationFailure::Source(e) => joined(
                "source subvolume validation failed: ",
                e.message().as_str(),
            ),
            ValidationFailure::Backup(e) => joined(
                "backup filesystem validation failed: ",
                e.message().as_str(),
            ),
        }
    }
}

/// What a [`Validation`] waits for.
#[derive(Debug, PartialEq, Eq, Structural, Clone, Copy)]
pub enum ValidationStage {
    /// The outcome of the command about the source.
    Source,
    /// The content of `/proc/mounts`.
    Mounts,
    /// Nothing more.
    Done,
}

/// What came of the last thing that a [`Validation`] waited for.
#[derive(Debug)]
pub enum ValidationReply {
    Source(Outcome),
    Mounts(Result<String, String>),
}

/// All startup validations, one after the other.
#[derive(Debug)]
pub struct Validation {
    pub source: SourceCheck,
    pub backup: BackupFsCheck,
    pub stage: ValidationStage,
    pub failure: Option<ValidationFailure>,
}

/// How a reply moves the validations on. The first failure ends them. A reply
/// that does not belong to what they wait for leaves them as they are.
pub open spec fn validation_next(v: Validation, reply: ValidationReply) -> Validation {
    match (v.stage, reply) {
        (ValidationStage::Source, ValidationReply::Source(outcome)) => match source_verdict(v.source.path, outcome) {
            Ok(()) => Validation { stage: ValidationStage::Mounts, ..v },
            Err(e) => Validation {
                stage: ValidationStage::Done,
                failure: Some(ValidationFailure::Source(e)),
                ..v
            },
        },
        (ValidationStage::Mounts, ValidationReply::Mounts(mounts)) => Validation {
            stage: ValidationStage::Done,
            failure: match backup_fs_verdict(v.backup.path, mounts) {
                Ok(()) => v.failure,
                Err(e) => Some(ValidationFailure::Backup(e)),
            },
            ..v
        },
        _ => v,
    }
}

impl Validation {
    /// Takes note of what came of the last thing that was waited for.
    pub fn advance(&mut self, reply: ValidationReply)
        ensures
            *final(self) == validation_next(*old(self), reply),
    {
        match (self.stage, reply) {
            (ValidationStage::Source, ValidationReply::Source(outcome)) => {
                match judge_source(self.source.path.clone(), outcome) {
                    Ok(()) => {
                        self.stage = ValidationStage::Mounts;
                    },
                    Err(e) => {
                        self.failure = Some(ValidationFailure::Source(e));
                        self.stage = ValidationStage::Done;
                    },
                }
            },
            (ValidationStage::Mounts, ValidationReply::Mounts(mounts)) => {
                if let Err(e) = judge_backup_fs(self.backup.path.clone(), mounts) {
                    self.failure = Some(ValidationFailure::Backup(e));
                }
                self.stage = ValidationStage::Done;
            },
            _ => {},
        }
    }

    /// The result of validations that wait for nothing more.
    pub fn finish(self) -> (r: Result<(), ValidationFailure>)
        requires
            self.stage == ValidationStage::Done,
        ensures
            match self.failure {
                Some(e) => r == Err::<(), _>(e),
                None => r is Ok,
            },
    {
        match self.failure {
            Some(e) => Err(e),
            None => Ok(()),
        }
    }
}

/// Runs all startup validations required before entering the scheduler loop.
///
/// Calls `validate_source` with the configured source subvolume path and
/// `validate_backup_fs` with the configured backup path.
pub fn validate_all(config: &Config) -> (r: Validation)
    ensures
        r.source.path@ == config.subvolume(),
        r.source.command@ == show_command(config.subvolume()),
        r.backup.path@ == config.paths.backup_path@,
        r.backup.mounts_file@ == PROC_MOUNTS@,
        r.stage == ValidationStage::Source,
        r.failure is None,
{
    Validation {
        source: validate_source(config.source_subvolume_path().as_str()),
        backup: validate_backup_fs(config.paths.backup_path.as_str()),
        stage: ValidationStage::Source,
        failure: None,
    }
}

/// Where the validations get to on a sequence of replies.
pub open spec fn validation_run(v: Validation, replies: Seq<ValidationReply>) -> Validation
    decreases replies.len(),
{
    if replies.len() == 0 {
        v
    } else {
        validation_next(validation_run(v, replies.drop_last()), replies.last())
    }
}

/// Whatever the replies were: validations that end without a failure have seen
/// the source accepted as a btrfs subvolume and the backup path found on btrfs,
/// and the mounts are not looked at before the source is accepted.
pub proof fn validation_needs_both_disks(v: Validation, replies: Seq<ValidationReply>)
    requires
        v.stage == ValidationStage::Source,
        v.failure is None,
        validation_run(v, replies).failure is None,
    ensures
        validation_run(v, replies).stage != ValidationStage::Source ==> exists|k: int|
            0 <= k < replies.len() && (#[trigger] replies[k] matches ValidationReply::Source(outcome)
                && source_verdict(v.source.path, outcome) is Ok),
        validation_run(v, replies).stage == ValidationStage::Done ==> exists|k: int|
            0 <= k < replies.len() && (#[trigger] replies[k] matches ValidationReply::Mounts(mounts)
                && backup_fs_verdict(v.backup.path, mounts) is Ok),
        validation_run(v, replies).source == v.source,
        validation_run(v, replies).backup == v.backup,
    decreases replies.len(),
{
    if replies.len() > 0 {
        let before = replies.drop_last();
        let u = validation_run(v, before);
        validation_needs_both_disks(v, before);
        assert(forall|k: int| 0 <= k < before.len() ==> before[k] == #[trigger] replies[k]);
        assert(replies[replies.len() - 1] == replies.last());
        if u.stage != ValidationStage::Source {
            let k = choose|k: int|
                0 <= k < before.len() && (#[trigger] before[k] matches ValidationReply::Source(outcome)
                    && source_verdict(v.source.path, outcome) is Ok);
            assert(replies[k] == before[k]);
        }
        if u.stage == ValidationStage::Done {
            let k = choose|k: int|
                0 <= k < before.len() && (#[trigger] before[k] matches ValidationReply::Mounts(mounts)
                    && backup_fs_verdict(v.backup.path, mounts) is Ok);
            assert(replies[k] == before[k]);
        }
    }
}

} // verus!
