//! Why a backup failed.

use vstd::prelude::*;

use crate::cmd::CommandError;
use crate::snapshot::TimestampError;
use crate::state::WriteError;
use crate::text::{debug_text, joined, quoted};
use crate::verdict::{ends_with, mentions};

verus! {

broadcast use vstd::string::group_string_axioms;

/// What a backup was about when it failed.
#[derive(Debug, PartialEq, Eq, Structural, Clone, Copy)]
pub enum Context {
    MarkFull,
    MarkIncremental,
    MarkUpload,
    MarkIdle,
    Snapshot,
    Send,
    SendIncremental,
    FullName,
    IncrementalName,
    /// Subject: the path to rename; object: the new path.
    Rename,
    /// Subject: the link.
    RemoveLink,
    /// Subject: the link; object: its target.
    MakeLink,
    /// Subject: the directory.
    ListSnapshots,
    /// Subject: the directory.
    ReadEntry,
    /// Subject: the snapshot.
    DeleteSnapshot,
    /// Subject: the base snapshot.
    MissingBase,
    DeleteBase,
    ReadClock,
    RecordFull,
    RecordIncremental,
    /// Subject: the name.
    InvalidName,
    /// Subject: the file.
    MissingKey,
    Stream,
    ListObjects,
    /// Subject: the URI of the object.
    DeleteObject,
}

/// What went wrong.
#[derive(Debug)]
pub enum Fault {
    /// The context says it all.
    Plain,
    Command(CommandError),
    Write(WriteError),
    /// An operation of the filesystem, with the reason.
    Io(String),
    /// The system clock is before the Unix epoch, with the reason.
    Clock(String),
    /// `stamp` is no timestamp.
    Timestamp { stamp: String, error: TimestampError },
}

/// Where a full backup failed, if in a part of it that can also be done by itself.
#[derive(Debug, PartialEq, Eq, Structural, Clone, Copy)]
pub enum Part {
    /// In none of these parts; or the part was done by itself.
    Whole,
    /// In the deletion of old snapshots.
    CleanUp,
    /// In the upload.
    Upload,
}

/// A failed backup.
#[derive(Debug)]
pub struct BackupError {
    /// The part of a full backup that it failed in.
    pub part: Part,
    pub context: Context,
    pub subject: String,
    pub object: String,
    pub fault: Fault,
}

/// The text of a [`BackupError`].
#[verifier::ext_equal]
pub struct BackupErrorView {
    pub part: Part,
    pub context: Context,
    pub subject: Seq<char>,
    pub object: Seq<char>,
    pub fault: Fault,
}

impl View for BackupError {
    type V = BackupErrorView;

    open spec fn view(&self) -> BackupErrorView {
        BackupErrorView {
            part: self.part,
            context: self.context,
            subject: self.subject@,
            object: self.object@,
            fault: self.fault,
        }
    }
}

/// The text of an optional error.
pub open spec fn error_view(e: Option<BackupError>) -> Option<BackupErrorView> {
    match e {
        Some(e) => Some(e@),
        None => None,
    }
}

/// A failure with nothing to name.
pub open spec fn bare(context: Context, fault: Fault) -> BackupErrorView {
    BackupErrorView { part: Part::Whole, context, subject: seq![], object: seq![], fault }
}

/// A failure that is about `subject`.
pub open spec fn about(context: Context, subject: Seq<char>, fault: Fault) -> BackupErrorView {
    BackupErrorView { part: Part::Whole, context, subject, object: seq![], fault }
}

/// A failure that is about `subject` and `object`.
pub open spec fn between(context: Context, subject: Seq<char>, object: Seq<char>, fault: Fault) -> BackupErrorView {
    BackupErrorView { part: Part::Whole, context, subject, object, fault }
}

/// The error of a command that failed.
pub open spec fn command_error(context: Context, r: Result<(), CommandError>) -> Option<BackupErrorView> {
    match r {
        Ok(()) => None,
        Err(e) => Some(bare(context, Fault::Command(e))),
    }
}

/// The error of a write that failed.
pub open spec fn write_error(context: Context, r: Result<(), WriteError>) -> Option<BackupErrorView> {
    match r {
        Ok(()) => None,
        Err(e) => Some(bare(context, Fault::Write(e))),
    }
}

/// The error of a filesystem operation on `subject` and `object` that failed.
pub open spec fn io_error(
    context: Context,
    subject: Seq<char>,
    object: Seq<char>,
    r: Result<(), String>,
) -> Option<BackupErrorView> {
    match r {
        Ok(()) => None,
        Err(cause) => Some(between(context, subject, object, Fault::Io(cause))),
    }
}

/// Makes a failure with nothing to name.
pub fn bare_error(context: Context, fault: Fault) -> (r: BackupError)
    ensures
        r@ == bare(context, fault),
{
    BackupError { part: Part::Whole, context, subject: String::new(), object: String::new(), fault }
}

/// Makes a failure that is about `subject`.
pub fn error_about(context: Context, subject: String, fault: Fault) -> (r: BackupError)
    ensures
        r@ == about(context, subject@, fault),
{
    BackupError { part: Part::Whole, context, subject, object: String::new(), fault }
}

/// Makes a failure that is about `subject` and `object`.
pub fn error_between(context: Context, subject: String, object: String, fault: Fault) -> (r: BackupError)
    ensures
        r@ == between(context, subject@, object@, fault),
{
    BackupError { part: Part::Whole, context, subject, object, fault }
}

impl Fault {
    /// The message of the fault; empty where the context says it all.
    pub open spec fn text(self) -> Seq<char> {
        match self {
            Fault::Plain => seq![],
            Fault::Command(e) => ": "@ + e.text(),
            Fault::Write(e) => ": "@ + e.text(),
            Fault::Io(cause) => ": "@ + cause@,
            Fault::Clock(cause) => ": system clock is before the Unix epoch: "@ + cause@,
            Fault::Timestamp { stamp, error } => ": "@ + error.text(stamp@),
        }
    }

    /// Returns the message of the fault.
    pub fn message(&self) -> (r: String)
        ensures
            r@ == self.text(),
    {
        match self {
            Fault::Plain => {
                let none = String::new();
                assert(none@ =~= self.text());
                none
            },
            Fault::Command(e) => joined(": ", e.message().as_str()),
            Fault::Write(e) => joined(": ", e.message().as_str()),
            Fault::Io(cause) => joined(": ", cause.as_str()),
            Fault::Clock(cause) => joined(": system clock is before the Unix epoch: ", cause.as_str()),
            Fault::Timestamp { stamp, error } => joined(": ", error.message(stamp.as_str()).as_str()),
        }
    }
}

impl Part {
    /// What the full backup puts before an error of the part.
    pub open spec fn text(self) -> Seq<char> {
        match self {
            Part::Whole => seq![],
            Part::CleanUp => "failed to delete old snapshots on Disk B: "@,
            Part::Upload => "S3 upload failed: "@,
        }
    }

    /// Returns what the full backup puts before an error of the part.
    pub fn message(&self) -> (r: String)
        ensures
            r@ == self.text(),
    {
        match self {
            Part::Whole => {
                let none = String::new();
                assert(none@ =~= self.text());
                none
            },
            Part::CleanUp => "failed to delete old snapshots on Disk B: ".to_owned(),
            Part::Upload => "S3 upload failed: ".to_owned(),
        }
    }
}

impl BackupErrorView {
    /// What the backup was about, in words.
    pub open spec fn context_text(self) -> Seq<char> {
        match self.context {
            Context::MarkFull => "failed to write in_progress:full state"@,
            Context::MarkIncremental => "failed to write in_progress:incremental state"@,
            Context::MarkUpload => "failed to write in_progress:s3_upload state"@,
            Context::MarkIdle => "failed to write idle state"@,
            Context::Snapshot => "failed to create read-only snapshot on Disk A"@,
            Context::Send => "failed to send snapshot to Disk B"@,
            Context::SendIncremental => "failed to send incremental snapshot to Disk B"@,
            Context::FullName => "failed to build full snapshot name"@,
            Context::IncrementalName => "failed to build incremental snapshot name"@,
            Context::Rename => "failed to rename "@ + self.subject + " to "@ + self.object,
            Context::RemoveLink => "failed to remove old 'current' symlink at "@ + self.subject,
            Context::MakeLink => "failed to create 'current' symlink "@ + self.subject + " -> "@ + self.object,
            Context::ListSnapshots =>
                "failed to read snapshots dir: "@ + self.subject,
            Context::ReadEntry =>
                "failed to read directory entry in "@ + self.subject,
            Context::DeleteSnapshot =>
                "failed to delete old snapshot: "@ + self.subject,
            Context::MissingBase =>
                "Cannot run incremental backup: base snapshot `.snap_base_full` does not exist at "@ + self.subject
                + ". A full backup must run first."@,
            Context::DeleteBase => "failed to delete old .snap_base_full on Disk A"@,
            Context::ReadClock => "failed to read system clock"@,
            Context::RecordFull => "failed to write last_full_backup timestamp"@,
            Context::RecordIncremental => "failed to write last_incremental_backup timestamp"@,
            Context::InvalidName => "invalid snapshot name "@ + debug_text(self.subject)
                + ": must match (full|incr)_YYYYMMDD_HHMMSS"@,
            Context::MissingKey => "GPG public key file does not exist or is not a regular file: "@ + self.subject,
            Context::Stream => "failed to stream-upload snapshot to S3"@,
            Context::ListObjects => "failed to list S3 objects"@,
            Context::DeleteObject => "failed to delete S3 object: "@ + self.subject,
        }
    }

    /// The message of the error, with its cause behind a colon.
    pub open spec fn text(self) -> Seq<char> {
        self.part.text() + self.context_text() + self.fault.text()
    }
}

impl BackupError {
    /// Returns the message of the error.
    pub fn message(&self) -> (r: String)
        ensures
            r@ == self@.text(),
    {
        let mut out = self.part.message();
        let ghost start = out@;
        match self.context {
            Context::MarkFull => {
                out.append("failed to write in_progress:full state");
            },
            Context::MarkIncremental => {
                out.append("failed to write in_progress:incremental state");
            },
            Context::MarkUpload => {
                out.append("failed to write in_progress:s3_upload state");
            },
            Context::MarkIdle => {
                out.append("failed to write idle state");
            },
            Context::Snapshot => {
                out.append("failed to create read-only snapshot on Disk A");
            },
            Context::Send => {
                out.append("failed to send snapshot to Disk B");
            },
            Context::SendIncremental => {
                out.append("failed to send incremental snapshot to Disk B");
            },
            Context::FullName => {
                out.append("failed to build full snapshot name");
            },
            Context::IncrementalName => {
                out.append("failed to build incremental snapshot name");
            },
            Context::Rename => {
                out.append("failed to rename ");
                out.append(self.subject.as_str());
                out.append(" to ");
                out.append(self.object.as_str());
            },
            Context::RemoveLink => {
                out.append("failed to remove old 'current' symlink at ");
                out.append(self.subject.as_str());
            },
            Context::MakeLink => {
                out.append("failed to create 'current' symlink ");
                out.append(self.subject.as_str());
                out.append(" -> ");
                out.append(self.object.as_str());
            },
            Context::ListSnapshots => {
                out.append("failed to read snapshots dir: ");
                out.append(self.subject.as_str());
            },
            Context::ReadEntry => {
                out.append("failed to read directory entry in ");
                out.append(self.subject.as_str());
            },
            Context::DeleteSnapshot => {
                out.append("failed to delete old snapshot: ");
                out.append(self.subject.as_str());
            },
            Context::MissingBase => {
                out.append("Cannot run incremental backup: base snapshot `.snap_base_full` does not exist at ");
                out.append(self.subject.as_str());
                out.append(". A full backup must run first.");
            },
            Context::DeleteBase => {
                out.append("failed to delete old .snap_base_full on Disk A");
            },
            Context::ReadClock => {
                out.append("failed to read system clock");
            },
            Context::RecordFull => {
                out.append("failed to write last_full_backup timestamp");
            },
            Context::RecordIncremental => {
                out.append("failed to write last_incremental_backup timestamp");
            },
            Context::InvalidName => {
                out.append("invalid snapshot name ");
                out.append(quoted(self.subject.as_str()).as_str());
                out.append(": must match (full|incr)_YYYYMMDD_HHMMSS");
            },
            Context::MissingKey => {
                out.append("GPG public key file does not exist or is not a regular file: ");
                out.append(self.subject.as_str());
            },
            Context::Stream => {
                out.append("failed to stream-upload snapshot to S3");
            },
            Context::ListObjects => {
                out.append("failed to list S3 objects");
            },
            Context::DeleteObject => {
                out.append("failed to delete S3 object: ");
                out.append(self.subject.as_str());
            },
        }
        assert(out@ =~= start + self@.context_text());
        out.append(self.fault.message().as_str());
        out
    }
}

/// The message of a failure begins with the part of the backup that it came from,
/// tells what was being done, and ends with the cause.
pub proof fn messages_end_with_the_cause(e: BackupErrorView)
    ensures
        ({
            let cause = match e.fault {
                Fault::Plain => seq![],
                Fault::Command(c) => ": "@ + c.text(),
                Fault::Write(w) => ": "@ + w.text(),
                Fault::Io(cause) => ": "@ + cause@,
                Fault::Clock(cause) => ": system clock is before the Unix epoch: "@ + cause@,
                Fault::Timestamp { stamp, error } => ": "@ + error.text(stamp@),
            };
            let start = match e.part {
                Part::Whole => seq![],
                Part::CleanUp => "failed to delete old snapshots on Disk B: "@,
                Part::Upload => "S3 upload failed: "@,
            };
            e.text() == start + e.context_text() + cause
        }),
{
}

/// What was being done names what it was done to: a failure that is about a path or
/// an object mentions it, and one between two paths mentions both in order.
pub proof fn messages_name_what_they_are_about(e: BackupErrorView)
    ensures
        match e.context {
            Context::Rename => e.context_text() == "failed to rename "@ + e.subject + " to "@ + e.object,
            Context::MakeLink => (e.subject + " -> "@ + e.object).is_suffix_of(e.context_text()),
            Context::RemoveLink
            | Context::ListSnapshots
            | Context::ReadEntry
            | Context::DeleteSnapshot
            | Context::MissingKey
            | Context::DeleteObject => e.subject.is_suffix_of(e.context_text()),
            Context::MissingBase => mentions(e.context_text(), e.subject),
            Context::InvalidName => mentions(e.context_text(), debug_text(e.subject)),
            _ => true,
        },
{
    let t = e.context_text();
    match e.context {
        Context::MakeLink => {
            ends_with("failed to create 'current' symlink "@, e.subject + " -> "@ + e.object, t);
        },
        Context::RemoveLink => {
            ends_with("failed to remove old 'current' symlink at "@, e.subject, t);
        },
        Context::ListSnapshots => {
            ends_with("failed to read snapshots dir: "@, e.subject, t);
        },
        Context::ReadEntry => {
            ends_with("failed to read directory entry in "@, e.subject, t);
        },
        Context::DeleteSnapshot => {
            ends_with("failed to delete old snapshot: "@, e.subject, t);
        },
        Context::MissingKey => {
            ends_with("GPG public key file does not exist or is not a regular file: "@, e.subject, t);
        },
        Context::DeleteObject => {
            ends_with("failed to delete S3 object: "@, e.subject, t);
        },
        Context::MissingBase => {
            assert(t == "Cannot run incremental backup: base snapshot `.snap_base_full` does not exist at "@
                + e.subject + ". A full backup must run first."@);
        },
        Context::InvalidName => {
            assert(t == "invalid snapshot name "@ + debug_text(e.subject)
                + ": must match (full|incr)_YYYYMMDD_HHMMSS"@);
        },
        _ => {},
    }
}

} // verus!
