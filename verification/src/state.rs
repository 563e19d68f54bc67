//! The state file and the timestamp files: their format, and how they are
//! replaced atomically.

use vstd::prelude::*;
use vstd::utf8::encode_utf8;

use crate::clock::{current_unix_ts, is_reading, Reading};
use crate::number::{decimal, decimal_text, number_fault, number_of, parse_fault, parse_number};
use crate::path::{join, joined_path, tmp_sibling, tmp_sibling_of};
use crate::text::{chars_of, debug_text, joined, quoted, same_text, slice_text, trim, trimmed};

verus! {

broadcast use vstd::string::group_string_axioms;

/// Identifies which backup operation is currently in progress.
#[derive(Debug, PartialEq, Eq, Structural, Clone, Copy)]
pub enum Operation {
    Full,
    Incremental,
    S3Upload,
}

/// Tracks whether the daemon is idle or mid-operation.
///
/// Persisted to `<state_dir>/state` so the daemon can detect an interrupted
/// run on the next startup and clean up before proceeding.
///
/// The on-disk format is `<status>:<operation>:<timestamp>` where timestamp is
/// Unix epoch seconds. For `idle`, the operation field is empty:
/// `idle::1706000000`. The timestamp is written on every update and discarded
/// on read: the `State` enum variants do not carry it.
#[derive(Debug, PartialEq, Eq, Structural, Clone, Copy)]
pub enum State {
    Idle,
    InProgress(Operation),
}

/// What reading a file gave.
#[derive(Debug)]
pub enum FileRead {
    /// The whole text of the file.
    Text(String),
    /// There is no such file.
    NotFound,
    /// The file could not be read, for the reason given.
    Failed(String),
}

/// Why the state or a timestamp could not be read or written.
#[derive(Debug)]
pub enum StateError {
    /// The state file holds none of the known states.
    Unrecognised { value: String },
    /// The state file could not be read.
    StateUnreadable { path: String, cause: String },
    /// A timestamp file holds no number; `preview` is how it begins.
    BadTimestamp { path: String, preview: String, cause: String },
    /// A timestamp file could not be read.
    TimestampUnreadable { path: String, cause: String },
    /// The system clock is before the Unix epoch.
    ClockBeforeEpoch { cause: String },
}

impl StateError {
    /// The message of the error, with its cause behind a colon.
    pub open spec fn text(self) -> Seq<char> {
        match self {
            StateError::Unrecognised { value } => "unrecognised state value: "@ + debug_text(value@),
            StateError::StateUnreadable { path, cause } => "failed to read state file: "@ + path@ + ": "@ + cause@,
            StateError::BadTimestamp { path, preview, cause } => "failed to parse timestamp in "@ + path@ + ": "@
                + debug_text(preview@) + ": "@ + cause@,
            StateError::TimestampUnreadable { path, cause } => "failed to read timestamp file: "@ + path@ + ": "@
                + cause@,
            StateError::ClockBeforeEpoch { cause } => "system clock is before the Unix epoch: "@ + cause@,
        }
    }

    /// Returns the message of the error.
    pub fn message(&self) -> (r: String)
        ensures
            r@ == self.text(),
    {
        let mut out = String::new();
        match self {
            StateError::Unrecognised { value } => {
                out.append("unrecognised state value: ");
                out.append(quoted(value.as_str()).as_str());
            },
            StateError::StateUnreadable { path, cause } => {
                out.append("failed to read state file: ");
                out.append(path.as_str());
                out.append(": ");
                out.append(cause.as_str());
            },
            StateError::BadTimestamp { path, preview, cause } => {
                out.append("failed to parse timestamp in ");
                out.append(path.as_str());
                out.append(": ");
                out.append(quoted(preview.as_str()).as_str());
                out.append(": ");
                out.append(cause.as_str());
            },
            StateError::TimestampUnreadable { path, cause } => {
                out.append("failed to read timestamp file: ");
                out.append(path.as_str());
                out.append(": ");
                out.append(cause.as_str());
            },
            StateError::ClockBeforeEpoch { cause } => {
                out.append("system clock is before the Unix epoch: ");
                out.append(cause.as_str());
            },
        }
        assert(out@ =~= self.text());
        out
    }
}

impl Operation {
    /// The operation as it is written to the state file.
    pub open spec fn text(self) -> Seq<char> {
        match self {
            Operation::Full => "full"@,
            Operation::Incremental => "incremental"@,
            Operation::S3Upload => "s3_upload"@,
        }
    }
}

/// The position of the first colon in `s`, or the length of `s`.
pub open spec fn field_len(s: Seq<char>) -> nat
    decreases s.len(),
{
    if s.len() == 0 || s[0] == ':' {
        0
    } else {
        1 + field_len(s.skip(1))
    }
}

/// What stands before the first colon of `s`; all of it where there is none.
pub open spec fn first_field(s: Seq<char>) -> Seq<char> {
    s.take(field_len(s) as int)
}

/// What stands behind the first colon of `s`; nothing where there is none.
pub open spec fn other_fields(s: Seq<char>) -> Seq<char> {
    if field_len(s) < s.len() {
        s.skip(field_len(s) as int + 1)
    } else {
        seq![]
    }
}

/// The state that `s` denotes, if any. The first field is the status, the second
/// one the operation; what follows them, the timestamp, does not matter.
pub open spec fn state_of(s: Seq<char>) -> Option<State> {
    let status = first_field(s);
    let operation = first_field(other_fields(s));
    if status == "idle"@ {
        Some(State::Idle)
    } else if status == "in_progress"@ && operation == Operation::Full.text() {
        Some(State::InProgress(Operation::Full))
    } else if status == "in_progress"@ && operation == Operation::Incremental.text() {
        Some(State::InProgress(Operation::Incremental))
    } else if status == "in_progress"@ && operation == Operation::S3Upload.text() {
        Some(State::InProgress(Operation::S3Upload))
    } else {
        None
    }
}

/// Where the field that starts at `from` ends.
fn field_end(cs: &Vec<char>, from: usize) -> (r: usize)
    requires
        from <= cs@.len(),
    ensures
        from <= r <= cs@.len(),
        r - from == field_len(cs@.skip(from as int)),
{
    let mut end: usize = from;
    assert(from == cs@.len() ==> field_len(cs@.skip(from as int)) == 0);
    while end < cs.len() && cs[end] != ':'
        invariant
            from <= end <= cs@.len(),
            field_len(cs@.skip(from as int)) == end - from + field_len(cs@.skip(end as int)),
        decreases cs@.len() - end,
    {
        assert(cs@.skip(end as int).skip(1) =~= cs@.skip(end + 1));
        end += 1;
    }
    end
}

impl State {
    /// The state in the on-disk format, with the timestamp `ts`.
    pub open spec fn file_text(self, ts: u64) -> Seq<char> {
        match self {
            State::Idle => "idle::"@ + decimal(ts as nat),
            State::InProgress(op) => "in_progress:"@ + op.text() + ":"@ + decimal(ts as nat),
        }
    }

    /// Serialises `self` into the three-field on-disk format with the given
    /// Unix timestamp.
    pub fn to_file_string(&self, ts: u64) -> (r: String)
        ensures
            r@ == self.file_text(ts),
    {
        let start = match self {
            State::Idle => "idle::".to_owned(),
            State::InProgress(op) => {
                let name = match op {
                    Operation::Full => "full",
                    Operation::Incremental => "incremental",
                    Operation::S3Upload => "s3_upload",
                };
                joined(joined("in_progress:", name).as_str(), ":")
            },
        };
        joined(start.as_str(), decimal_text(ts).as_str())
    }

    /// Parses the on-disk three-field format `<status>:<operation>:<timestamp>`.
    ///
    /// The timestamp field is discarded; only the status and operation fields
    /// are used to construct the enum variant.
    pub fn parse(s: &str) -> (r: Result<State, StateError>)
        ensures
            match state_of(s@) {
                Some(state) => r == Ok::<State, StateError>(state),
                None => r matches Err(StateError::Unrecognised { value }) && value@ == s@,
            },
    {
        let cs = chars_of(s);
        let end = field_end(&cs, 0);
        assert(cs@.skip(0) =~= cs@);
        let status = slice_text(&cs, 0, end);
        assert(status@ =~= first_field(s@));
        let operation = if end < cs.len() {
            let second = field_end(&cs, end + 1);
            let text = slice_text(&cs, end + 1, second);
            assert(text@ =~= first_field(other_fields(s@)));
            text
        } else {
            assert(first_field(other_fields(s@)) =~= seq![]);
            String::new()
        };
        let op = operation.as_str();
        if same_text(status.as_str(), "idle") {
            return Ok(State::Idle);
        }
        if same_text(status.as_str(), "in_progress") {
            if same_text(op, "full") {
                return Ok(State::InProgress(Operation::Full));
            }
            if same_text(op, "incremental") {
                return Ok(State::InProgress(Operation::Incremental));
            }
            if same_text(op, "s3_upload") {
                return Ok(State::InProgress(Operation::S3Upload));
            }
        }
        Err(StateError::Unrecognised { value: s.to_owned() })
    }
}

/// The steps of an atomic write, in order.
#[derive(Debug, PartialEq, Eq, Structural, Clone, Copy)]
pub enum WriteStage {
    /// Create the temporary file, empty.
    Create,
    /// Write the whole content to it.
    Fill,
    /// Flush it to disk.
    Sync,
    /// Rename it to its final path.
    Rename,
    /// Nothing more.
    Done,
}

/// Why an atomic write failed.
#[derive(Debug)]
pub struct WriteError {
    pub stage: WriteStage,
    pub path: String,
    pub tmp_path: String,
    pub cause: String,
}

impl WriteError {
    /// The message of the error, with its cause behind a colon.
    pub open spec fn text(self) -> Seq<char> {
        (match self.stage {
            WriteStage::Create => "failed to create tmp file: "@ + self.tmp_path@,
            WriteStage::Fill => "failed to write tmp file: "@ + self.tmp_path@,
            WriteStage::Sync => "failed to fsync tmp file: "@ + self.tmp_path@,
            WriteStage::Rename | WriteStage::Done => "failed to rename "@ + self.tmp_path@ + " to "@ + self.path@,
        }) + ": "@ + self.cause@
    }

    /// Returns the message of the error.
    pub fn message(&self) -> (r: String)
        ensures
            r@ == self.text(),
    {
        let mut out = match self.stage {
            WriteStage::Create => joined("failed to create tmp file: ", self.tmp_path.as_str()),
            WriteStage::Fill => joined("failed to write tmp file: ", self.tmp_path.as_str()),
            WriteStage::Sync => joined("failed to fsync tmp file: ", self.tmp_path.as_str()),
            WriteStage::Rename | WriteStage::Done => {
                let start = joined("failed to rename ", self.tmp_path.as_str());
                joined(joined(start.as_str(), " to ").as_str(), self.path.as_str())
            },
        };
        out.append(": ");
        out.append(self.cause.as_str());
        out
    }
}

/// The replacement of a file by way of a temporary sibling and a rename.
///
/// The content is flushed before the rename, so that it has reached the disk
/// before the directory entry is updated.
#[derive(Debug)]
pub struct AtomicWrite {
    pub path: String,
    pub tmp_path: String,
    pub content: String,
    pub stage: WriteStage,
    pub failure: Option<WriteError>,
}

/// How the result of the current step moves an atomic write on. The first
/// failure ends it.
pub open spec fn write_next(w: AtomicWrite, reply: Result<(), String>) -> AtomicWrite {
    match (w.stage, reply) {
        (WriteStage::Done, _) => w,
        (stage, Err(cause)) => AtomicWrite {
            stage: WriteStage::Done,
            failure: Some(WriteError { stage, path: w.path, tmp_path: w.tmp_path, cause }),
            ..w
        },
        (WriteStage::Create, Ok(())) => AtomicWrite { stage: WriteStage::Fill, ..w },
        (WriteStage::Fill, Ok(())) => AtomicWrite { stage: WriteStage::Sync, ..w },
        (WriteStage::Sync, Ok(())) => AtomicWrite { stage: WriteStage::Rename, ..w },
        (WriteStage::Rename, Ok(())) => AtomicWrite { stage: WriteStage::Done, ..w },
    }
}

impl AtomicWrite {
    /// Whether this write is about to put `content` at `path`.
    pub open spec fn replaces(self, path: Seq<char>, content: Seq<char>) -> bool {
        &&& self.path@ == path
        &&& self.tmp_path@ == tmp_sibling(path)
        &&& self.content@ == content
        &&& self.stage == WriteStage::Create
        &&& self.failure is None
    }

    /// Whether this write is about to put `content` at `name` in `dir`.
    pub open spec fn is_fresh(self, dir: Seq<char>, name: Seq<char>, content: Seq<char>) -> bool {
        self.replaces(join(dir, name), content)
    }

    /// Takes note of the result of the current step.
    pub fn advance(&mut self, reply: Result<(), String>)
        ensures
            *final(self) == write_next(*old(self), reply),
    {
        match (self.stage, reply) {
            (WriteStage::Done, _) => {},
            (stage, Err(cause)) => {
                let path = self.path.clone();
                let tmp_path = self.tmp_path.clone();
                self.failure = Some(WriteError { stage, path, tmp_path, cause });
                self.stage = WriteStage::Done;
            },
            (WriteStage::Create, Ok(())) => {
                self.stage = WriteStage::Fill;
            },
            (WriteStage::Fill, Ok(())) => {
                self.stage = WriteStage::Sync;
            },
            (WriteStage::Sync, Ok(())) => {
                self.stage = WriteStage::Rename;
            },
            (WriteStage::Rename, Ok(())) => {
                self.stage = WriteStage::Done;
            },
        }
    }

    /// The result of a write that is over.
    pub fn finish(self) -> (r: Result<(), WriteError>)
        requires
            self.stage == WriteStage::Done,
        ensures
            match self.failure {
                Some(e) => r == Err::<(), _>(e),
                None => r is Ok,
            },
    {
        match self.failure {
            Some(e) => Err(e),
            None => Ok(()),
        }
    }
}

/// Writes `content` to `path` atomically via a `.tmp` sibling and a rename.
///
/// The content is flushed before the rename to ensure that it reaches the disk
/// before the directory entry is updated.
pub fn atomic_write(path: String, content: String) -> (r: AtomicWrite)
    ensures
        r.replaces(path@, content@),
{
    let tmp_path = tmp_sibling_of(path.as_str());
    AtomicWrite { path, tmp_path, content, stage: WriteStage::Create, failure: None }
}

/// A state file that is to be read.
#[derive(Debug)]
pub struct StateRead {
    pub path: String,
}

impl StateRead {
    /// Interprets what reading the file gave.
    ///
    /// A missing file is treated as `Idle` (first run or clean shutdown).
    /// Any other I/O error or unrecognised content is returned as `Err`.
    pub fn finish(self, file: FileRead) -> (r: Result<State, StateError>)
        ensures
            match file {
                FileRead::Text(raw) => match state_of(trim(raw@)) {
                    Some(state) => r == Ok::<State, StateError>(state),
                    None => r matches Err(StateError::Unrecognised { value }) && value@ == trim(raw@),
                },
                FileRead::NotFound => r == Ok::<State, StateError>(State::Idle),
                FileRead::Failed(cause) => r == Err::<State, _>(
                    StateError::StateUnreadable { path: self.path, cause },
                ),
            },
    {
        match file {
            FileRead::Text(raw) => State::parse(trimmed(raw.as_str()).as_str()),
            FileRead::NotFound => Ok(State::Idle),
            FileRead::Failed(cause) => Err(StateError::StateUnreadable { path: self.path, cause }),
        }
    }
}

impl State {
    /// Reads the state file at `state_dir/state`.
    pub fn read(state_dir: &str) -> (r: StateRead)
        ensures
            r.path@ == join(state_dir@, "state"@),
    {
        StateRead { path: joined_path(state_dir, "state") }
    }

    /// Writes the canonical string representation to `state_dir/state`.
    ///
    /// The current Unix timestamp is embedded in the written string as the
    /// third colon-separated field (e.g. `idle::1706000000`).
    pub fn write(&self, state_dir: &str) -> (r: Result<AtomicWrite, StateError>)
        ensures
            exists|now: Reading| #[trigger] is_reading(now) && self.is_written_at(state_dir@, now, r),
    {
        self.write_at(state_dir, current_unix_ts())
    }

    /// Whether `r` is the write of this state to the state file in `dir` at the time
    /// `now`, or the error for a clock before the Unix epoch.
    pub open spec fn is_written_at(self, dir: Seq<char>, now: Reading, r: Result<AtomicWrite, StateError>) -> bool {
        match now {
            Ok(ts) => r matches Ok(w) && w.is_fresh(dir, "state"@, self.file_text(ts)),
            Err(cause) => r == Err::<AtomicWrite, _>(StateError::ClockBeforeEpoch { cause }),
        }
    }

    /// Writes the canonical string representation to `state_dir/state` with the
    /// timestamp `now`.
    pub fn write_at(&self, state_dir: &str, now: Reading) -> (r: Result<AtomicWrite, StateError>)
        ensures
            self.is_written_at(state_dir@, now, r),
    {
        match now {
            Ok(ts) => Ok(atomic_write(joined_path(state_dir, "state"), self.to_file_string(ts))),
            Err(cause) => Err(StateError::ClockBeforeEpoch { cause }),
        }
    }
}

/// Last-run timestamps (Unix epoch seconds) for full and incremental backups.
///
/// Persisted as two plain-text files inside `state_dir`:
/// - `last_full_backup`
/// - `last_incremental_backup`
#[derive(Debug, PartialEq, Eq, Structural, Clone, Copy)]
pub struct Timestamps {
    pub last_full: Option<u64>,
    pub last_incremental: Option<u64>,
}

/// The beginning of `s` that is shown in a message: as many whole characters as
/// fit into 64 bytes.
pub open spec fn preview(s: Seq<char>) -> Seq<char>
    decreases s.len(),
{
    if s.len() == 0 || encode_utf8(s).len() <= 64 {
        s
    } else {
        preview(s.drop_last())
    }
}

/// A character takes one to four bytes.
proof fn encoded_size(s: Seq<char>)
    ensures
        s.len() <= encode_utf8(s).len() <= 4 * s.len(),
    decreases s.len(),
{
    if s.len() > 0 {
        encoded_size(s.drop_first());
    }
}

/// Longer texts have the preview of their first 64 characters.
proof fn preview_of_long(s: Seq<char>)
    requires
        s.len() >= 64,
    ensures
        preview(s) == preview(s.take(64)),
    decreases s.len(),
{
    if s.len() == 64 {
        assert(s.take(64) =~= s);
    } else {
        encoded_size(s);
        assert(s.drop_last().take(64) =~= s.take(64));
        preview_of_long(s.drop_last());
    }
}

/// The preview of `s`.
fn preview_text(s: &str) -> (r: String)
    ensures
        r@ == preview(s@),
{
    let cs = chars_of(s);
    let mut n: usize = if cs.len() > 64 { 64 } else { cs.len() };
    proof {
        if cs@.len() > 64 {
            preview_of_long(cs@);
        } else {
            assert(cs@.take(n as int) =~= cs@);
        }
    }
    loop
        invariant
            n <= 64,
            n <= cs@.len(),
            preview(s@) == preview(cs@.take(n as int)),
        decreases n,
    {
        let text = slice_text(&cs, 0, n);
        assert(text@ =~= cs@.take(n as int));
        proof {
            encoded_size(text@);
        }
        if n == 0 || text.as_str().len() <= 64 {
            return text;
        }
        assert(cs@.take(n as int).drop_last() =~= cs@.take(n - 1));
        n -= 1;
    }
}

/// Whether `r` is what reading the timestamp file at `path` amounts to.
pub open spec fn timestamp_read(path: String, file: FileRead, r: Result<Option<u64>, StateError>) -> bool {
    match file {
        FileRead::Text(raw) => match number_of(trim(raw@)) {
            Some(ts) => r == Ok::<_, StateError>(Some(ts)),
            None => {
                &&& r matches Err(StateError::BadTimestamp { path: p, preview: start, cause })
                &&& p == path
                &&& start@ == preview(trim(raw@))
                &&& cause@ == number_fault(trim(raw@))
            },
        },
        FileRead::NotFound => r == Ok::<_, StateError>(None::<u64>),
        FileRead::Failed(cause) => r == Err::<Option<u64>, _>(StateError::TimestampUnreadable { path, cause }),
    }
}

/// Interprets what reading the timestamp file at `path` gave.
///
/// A missing file yields `None`; anything else that is no number is an error.
pub fn read_timestamp(path: String, file: FileRead) -> (r: Result<Option<u64>, StateError>)
    ensures
        timestamp_read(path, file, r),
{
    match file {
        FileRead::Text(raw) => {
            let text = trimmed(raw.as_str());
            match parse_number(text.as_str()) {
                Some(ts) => Ok(Some(ts)),
                None => Err(
                    StateError::BadTimestamp {
                        path,
                        preview: preview_text(text.as_str()),
                        cause: parse_fault(text.as_str()),
                    },
                ),
            }
        },
        FileRead::NotFound => Ok(None),
        FileRead::Failed(cause) => Err(StateError::TimestampUnreadable { path, cause }),
    }
}

/// Overwrites the timestamp file `name` in `state_dir` with `ts`.
pub fn write_timestamp(state_dir: &str, name: &str, ts: u64) -> (r: AtomicWrite)
    ensures
        r.is_fresh(state_dir@, name@, decimal(ts as nat)),
{
    atomic_write(joined_path(state_dir, name), decimal_text(ts))
}

/// Which timestamp file is to be read next.
#[derive(Debug, PartialEq, Eq, Structural, Clone, Copy)]
pub enum TimestampsStage {
    Full,
    Incremental,
    Done,
}

/// The two timestamp files, to be read one after the other.
#[derive(Debug)]
pub struct TimestampsRead {
    pub full_path: String,
    pub incremental_path: String,
    pub stage: TimestampsStage,
    pub found: Timestamps,
    pub failure: Option<StateError>,
}

/// Whether `after` is where reading the current file, with the result `file`,
/// leads from `before`. The first error ends the reading.
pub open spec fn timestamps_next(before: TimestampsRead, file: FileRead, after: TimestampsRead) -> bool {
    &&& after.full_path == before.full_path
    &&& after.incremental_path == before.incremental_path
    &&& match before.stage {
        TimestampsStage::Full => exists|r: Result<Option<u64>, StateError>|
            {
                &&& #[trigger] timestamp_read(before.full_path, file, r)
                &&& match r {
                    Ok(ts) => {
                        &&& after.stage == TimestampsStage::Incremental
                        &&& after.found == (Timestamps { last_full: ts, ..before.found })
                        &&& after.failure == before.failure
                    },
                    Err(e) => {
                        &&& after.stage == TimestampsStage::Done
                        &&& after.found == before.found
                        &&& after.failure == Some(e)
                    },
                }
            },
        TimestampsStage::Incremental => exists|r: Result<Option<u64>, StateError>|
            {
                &&& #[trigger] timestamp_read(before.incremental_path, file, r)
                &&& after.stage == TimestampsStage::Done
                &&& match r {
                    Ok(ts) => {
                        &&& after.found == (Timestamps { last_incremental: ts, ..before.found })
                        &&& after.failure == before.failure
                    },
                    Err(e) => {
                        &&& after.found == before.found
                        &&& after.failure == Some(e)
                    },
                }
            },
        TimestampsStage::Done => after == before,
    }
}

impl TimestampsRead {
    /// Takes note of what reading the current file gave.
    pub fn advance(&mut self, file: FileRead)
        ensures
            timestamps_next(*old(self), file, *final(self)),
    {
        match self.stage {
            TimestampsStage::Full => {
                let r = read_timestamp(self.full_path.clone(), file);
                let ghost g = r;
                match r {
                    Ok(ts) => {
                        self.found.last_full = ts;
                        self.stage = TimestampsStage::Incremental;
                    },
                    Err(e) => {
                        self.failure = Some(e);
                        self.stage = TimestampsStage::Done;
                    },
                }
                assert(timestamp_read(old(self).full_path, file, g));
            },
            TimestampsStage::Incremental => {
                let r = read_timestamp(self.incremental_path.clone(), file);
                let ghost g = r;
                match r {
                    Ok(ts) => {
                        self.found.last_incremental = ts;
                    },
                    Err(e) => {
                        self.failure = Some(e);
                    },
                }
                self.stage = TimestampsStage::Done;
                assert(timestamp_read(old(self).incremental_path, file, g));
            },
            TimestampsStage::Done => {},
        }
    }

    /// The timestamps, once both files have been read.
    pub fn finish(self) -> (r: Result<Timestamps, StateError>)
        requires
            self.stage == TimestampsStage::Done,
        ensures
            match self.failure {
                Some(e) => r == Err::<Timestamps, _>(e),
                None => r == Ok::<_, StateError>(self.found),
            },
    {
        match self.failure {
            Some(e) => Err(e),
            None => Ok(self.found),
        }
    }
}

impl Timestamps {
    /// Reads both timestamp files from `state_dir`.
    ///
    /// A missing file yields `None` for that field; other errors are propagated.
    pub fn read(state_dir: &str) -> (r: TimestampsRead)
        ensures
            r.full_path@ == join(state_dir@, "last_full_backup"@),
            r.incremental_path@ == join(state_dir@, "last_incremental_backup"@),
            r.stage == TimestampsStage::Full,
            r.found == (Timestamps { last_full: None, last_incremental: None }),
            r.failure is None,
    {
        TimestampsRead {
            full_path: joined_path(state_dir, "last_full_backup"),
            incremental_path: joined_path(state_dir, "last_incremental_backup"),
            stage: TimestampsStage::Full,
            found: Timestamps { last_full: None, last_incremental: None },
            failure: None,
        }
    }

    /// Overwrites `state_dir/last_full_backup` with `ts`.
    pub fn write_full(state_dir: &str, ts: u64) -> (r: AtomicWrite)
        ensures
            r.is_fresh(state_dir@, "last_full_backup"@, decimal(ts as nat)),
    {
        write_timestamp(state_dir, "last_full_backup", ts)
    }

    /// Overwrites `state_dir/last_incremental_backup` with `ts`.
    pub fn write_incremental(state_dir: &str, ts: u64) -> (r: AtomicWrite)
        ensures
            r.is_fresh(state_dir@, "last_incremental_backup"@, decimal(ts as nat)),
    {
        write_timestamp(state_dir, "last_incremental_backup", ts)
    }
}

} // verus!
