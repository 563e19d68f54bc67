//! The records in the state directory: what a state file says, what the timestamp
//! files say, and how far a write of one has got.

use vstd::prelude::*;
use vstd::utf8::encode_utf8;

use crate::clock::Reading;
use crate::durability::{all_space, fields_split, timestamp_is_read_back};
use crate::number::{decimal, number_fault, number_of};
use crate::path::{join, tmp_sibling};
use crate::state::{
    field_len, first_field, other_fields, preview, state_of, timestamp_read, timestamps_next, write_next, AtomicWrite,
    FileRead, Operation, State, StateError, Timestamps, TimestampsRead, TimestampsStage, WriteError, WriteStage,
};
use crate::text::{debug_text, trim};
use crate::verdict::{ends_with, mentions};

verus! {

/// Whether `s` holds no colon.
pub open spec fn is_field(s: Seq<char>) -> bool {
    forall|i: int| 0 <= i < s.len() ==> #[trigger] s[i] != ':'
}

/// What the status `a` and the operation `b` mean: `idle` is the idle state
/// whatever the operation, `in_progress` one of the three operations, and anything
/// else is no state.
pub open spec fn means(a: Seq<char>, b: Seq<char>, state: Option<State>) -> bool {
    if a == "idle"@ {
        state == Some(State::Idle)
    } else if a == "in_progress"@ {
        &&& b == "full"@ <==> state == Some(State::InProgress(Operation::Full))
        &&& b == "incremental"@ <==> state == Some(State::InProgress(Operation::Incremental))
        &&& b == "s3_upload"@ <==> state == Some(State::InProgress(Operation::S3Upload))
        &&& state != Some(State::Idle)
    } else {
        state is None
    }
}

/// A state file is told by what stands before its first two colons, whatever
/// follows them. Fields that are not there count as empty.
pub proof fn state_is_told_by_two_fields(a: Seq<char>, b: Seq<char>, rest: Seq<char>)
    requires
        is_field(a),
        is_field(b),
    ensures
        means(a, b, state_of(a + seq![':'] + b + seq![':'] + rest)),
        means(a, b, state_of(a + seq![':'] + b)),
        means(a, seq![], state_of(a)),
{
    reveal_strlit("idle");
    reveal_strlit("in_progress");
    reveal_strlit("full");
    reveal_strlit("incremental");
    reveal_strlit("s3_upload");
    assert("idle"@.len() == 4 && "in_progress"@.len() == 11);
    assert("full"@.len() == 4 && "incremental"@.len() == 11 && "s3_upload"@.len() == 9);
    let behind = b + seq![':'] + rest;
    assert(a + seq![':'] + b + seq![':'] + rest =~= a + seq![':'] + behind);
    fields_split(a, behind);
    fields_split(b, rest);
    fields_split(a, b);
    whole_field(a);
    whole_field(b);
    whole_field(seq![]);
}

/// A text without colons is all one field.
proof fn whole_field(s: Seq<char>)
    requires
        is_field(s),
    ensures
        first_field(s) == s,
        other_fields(s) == Seq::<char>::empty(),
    decreases s.len(),
{
    field_len_at_end(s);
    assert(s.take(s.len() as int) =~= s);
}

proof fn field_len_at_end(s: Seq<char>)
    requires
        is_field(s),
    ensures
        field_len(s) == s.len(),
    decreases s.len(),
{
    if s.len() > 0 {
        assert forall|i: int| 0 <= i < s.skip(1).len() implies #[trigger] s.skip(1)[i] != ':' by {
            assert(s[i + 1] != ':');
        }
        assert(s[0] != ':');
        field_len_at_end(s.skip(1));
    }
}

/// A state is written as its status, its operation and the timestamp, with colons
/// between them. The idle state has no operation.
pub proof fn state_is_written_with_its_time(op: Operation, ts: u64)
    ensures
        State::Idle.file_text(ts) == "idle"@ + seq![':'] + seq![':'] + decimal(ts as nat),
        State::InProgress(op).file_text(ts) == "in_progress"@ + seq![':'] + (match op {
            Operation::Full => "full"@,
            Operation::Incremental => "incremental"@,
            Operation::S3Upload => "s3_upload"@,
        }) + seq![':'] + decimal(ts as nat),
{
    reveal_strlit("idle");
    reveal_strlit("idle::");
    reveal_strlit("in_progress");
    reveal_strlit("in_progress:");
    reveal_strlit(":");
    assert("idle::"@ =~= "idle"@ + seq![':'] + seq![':']);
    assert("in_progress:"@ =~= "in_progress"@ + seq![':']);
    assert(":"@ =~= seq![':']);
}

/// A write that no step of fails creates the temporary file, fills it, flushes it
/// and renames it, one after the other, and has then succeeded.
pub proof fn write_succeeds_in_four_steps(w: AtomicWrite)
    requires
        w.stage == WriteStage::Create,
        w.failure is None,
    ensures
        ({
            let created = write_next(w, Ok(()));
            let filled = write_next(created, Ok(()));
            let flushed = write_next(filled, Ok(()));
            let renamed = write_next(flushed, Ok(()));
            &&& created == (AtomicWrite { stage: WriteStage::Fill, ..w })
            &&& filled == (AtomicWrite { stage: WriteStage::Sync, ..w })
            &&& flushed == (AtomicWrite { stage: WriteStage::Rename, ..w })
            &&& renamed == (AtomicWrite { stage: WriteStage::Done, ..w })
        }),
{
}

/// A write whose current step fails is over, and reports that step, both paths and
/// the reason. A write that is over stays as it is.
pub proof fn write_reports_the_step_that_failed(w: AtomicWrite, reply: Result<(), String>)
    ensures
        w.stage == WriteStage::Done ==> write_next(w, reply) == w,
        w.stage != WriteStage::Done ==> (reply matches Err(cause) ==> write_next(w, reply) == (AtomicWrite {
            stage: WriteStage::Done,
            failure: Some(WriteError { stage: w.stage, path: w.path, tmp_path: w.tmp_path, cause }),
            ..w
        })),
{
}

/// Whether a file holds the timestamp `t`, white space around it aside, or is
/// missing where there is none.
pub open spec fn holds(file: FileRead, t: Option<u64>) -> bool {
    match (file, t) {
        (FileRead::Text(raw), Some(ts)) => exists|before: Seq<char>, after: Seq<char>|
            {
                &&& all_space(before)
                &&& all_space(after)
                &&& raw@ == #[trigger] (before + decimal(ts as nat) + after)
            },
        (FileRead::NotFound, None) => true,
        _ => false,
    }
}

proof fn held_timestamp_is_read(path: String, file: FileRead, t: Option<u64>, r: Result<Option<u64>, StateError>)
    requires
        holds(file, t),
        timestamp_read(path, file, r),
    ensures
        r == Ok::<_, StateError>(t),
{
    if let FileRead::Text(raw) = file {
        let ts = t->Some_0;
        let (before, after) = choose|before: Seq<char>, after: Seq<char>|
            {
                &&& all_space(before)
                &&& all_space(after)
                &&& raw@ == #[trigger] (before + decimal(ts as nat) + after)
            };
        timestamp_is_read_back(ts, before, after);
    }
}

/// Reading both timestamp files gives the time of the last full backup from the
/// first and that of the last incremental one from the second, and none for a file
/// that is missing.
pub proof fn timestamps_are_read_from_their_files(
    start: TimestampsRead,
    full_file: FileRead,
    full: Option<u64>,
    half: TimestampsRead,
    incr_file: FileRead,
    incr: Option<u64>,
    end: TimestampsRead,
)
    requires
        start.stage == TimestampsStage::Full,
        start.failure is None,
        holds(full_file, full),
        holds(incr_file, incr),
        timestamps_next(start, full_file, half),
        timestamps_next(half, incr_file, end),
    ensures
        half.stage == TimestampsStage::Incremental,
        end.stage == TimestampsStage::Done,
        end.failure is None,
        end.found == (Timestamps { last_full: full, last_incremental: incr }),
{
    let r = choose|r: Result<Option<u64>, StateError>|
        {
            &&& #[trigger] timestamp_read(start.full_path, full_file, r)
            &&& match r {
                Ok(ts) => {
                    &&& half.stage == TimestampsStage::Incremental
                    &&& half.found == (Timestamps { last_full: ts, ..start.found })
                    &&& half.failure == start.failure
                },
                Err(e) => {
                    &&& half.stage == TimestampsStage::Done
                    &&& half.found == start.found
                    &&& half.failure == Some(e)
                },
            }
        };
    held_timestamp_is_read(start.full_path, full_file, full, r);
    let q = choose|q: Result<Option<u64>, StateError>|
        {
            &&& #[trigger] timestamp_read(half.incremental_path, incr_file, q)
            &&& end.stage == TimestampsStage::Done
            &&& match q {
                Ok(ts) => {
                    &&& end.found == (Timestamps { last_incremental: ts, ..half.found })
                    &&& end.failure == half.failure
                },
                Err(e) => {
                    &&& end.found == half.found
                    &&& end.failure == Some(e)
                },
            }
        };
    held_timestamp_is_read(half.incremental_path, incr_file, incr, q);
}

/// A timestamp file that cannot be read, or holds no number, ends the reading of
/// the timestamps with an error that tells the path and the reason, or how the file
/// begins.
pub proof fn unreadable_timestamp_ends_the_reading(before: TimestampsRead, file: FileRead, after: TimestampsRead)
    requires
        timestamps_next(before, file, after),
        before.stage != TimestampsStage::Done,
        match file {
            FileRead::Text(raw) => number_of(trim(raw@)) is None,
            FileRead::NotFound => false,
            FileRead::Failed(_) => true,
        },
    ensures
        after.stage == TimestampsStage::Done,
        ({
            let at = if before.stage == TimestampsStage::Full {
                before.full_path
            } else {
                before.incremental_path
            };
            match file {
                FileRead::Text(raw) => {
                    &&& after.failure matches Some(StateError::BadTimestamp { path, preview: start, cause })
                    &&& path == at
                    &&& start@ == preview(trim(raw@))
                    &&& cause@ == number_fault(trim(raw@))
                },
                FileRead::NotFound => false,
                FileRead::Failed(cause) => after.failure == Some(
                    StateError::TimestampUnreadable { path: at, cause },
                ),
            }
        }),
{
}

/// The preview of a text is its longest start of whole characters that fits into
/// 64 bytes.
pub proof fn preview_is_the_longest_start(s: Seq<char>)
    ensures
        preview(s).is_prefix_of(s),
        encode_utf8(preview(s)).len() <= 64,
        preview(s) == s || encode_utf8(s.take(preview(s).len() as int + 1)).len() > 64,
    decreases s.len(),
{
    if s.len() == 0 || encode_utf8(s).len() <= 64 {
        assert(s =~= s.subrange(0, s.len() as int));
    } else {
        let t = s.drop_last();
        let p = preview(t);
        preview_is_the_longest_start(t);
        assert(p =~= t.subrange(0, p.len() as int));
        assert(p =~= s.subrange(0, p.len() as int)) by {
            assert(forall|i: int| 0 <= i < p.len() ==> p[i] == t.subrange(0, p.len() as int)[i]);
        }
        if p == t {
            assert(s.take(p.len() as int + 1) =~= s);
        } else {
            assert(p.len() < t.len()) by {
                if p.len() == t.len() {
                    assert(t.subrange(0, t.len() as int) =~= t);
                }
            }
            assert(s.take(p.len() as int + 1) =~= t.take(p.len() as int + 1));
        }
    }
}

/// The message about a record tells the path and ends with the reason; that about a
/// state that is none quotes what was found.
pub proof fn record_messages_tell_path_and_cause(e: StateError, w: WriteError)
    ensures
        match e {
            StateError::Unrecognised { value } => debug_text(value@).is_suffix_of(e.text()),
            StateError::StateUnreadable { path, cause } => (path@ + ": "@ + cause@).is_suffix_of(e.text()),
            StateError::BadTimestamp { path, preview, cause } => (path@ + ": "@ + debug_text(preview@) + ": "@
                + cause@).is_suffix_of(e.text()),
            StateError::TimestampUnreadable { path, cause } => (path@ + ": "@ + cause@).is_suffix_of(e.text()),
            StateError::ClockBeforeEpoch { cause } => cause@.is_suffix_of(e.text()),
        },
        mentions(w.text(), w.tmp_path@),
        w.stage == WriteStage::Rename ==> mentions(w.text(), w.tmp_path@ + " to "@ + w.path@),
        (": "@ + w.cause@).is_suffix_of(w.text()),
{
    let t = e.text();
    match e {
        StateError::Unrecognised { value } => {
            ends_with("unrecognised state value: "@, debug_text(value@), t);
        },
        StateError::StateUnreadable { path, cause } => {
            ends_with("failed to read state file: "@, path@ + ": "@ + cause@, t);
        },
        StateError::BadTimestamp { path, preview, cause } => {
            ends_with(
                "failed to parse timestamp in "@,
                path@ + ": "@ + debug_text(preview@) + ": "@ + cause@,
                t,
            );
        },
        StateError::TimestampUnreadable { path, cause } => {
            ends_with("failed to read timestamp file: "@, path@ + ": "@ + cause@, t);
        },
        StateError::ClockBeforeEpoch { cause } => {
            ends_with("system clock is before the Unix epoch: "@, cause@, t);
        },
    }
    let u = w.text();
    let tail = ": "@ + w.cause@;
    match w.stage {
        WriteStage::Create => {
            assert(u =~= "failed to create tmp file: "@ + w.tmp_path@ + tail);
            ends_with("failed to create tmp file: "@ + w.tmp_path@, tail, u);
        },
        WriteStage::Fill => {
            assert(u =~= "failed to write tmp file: "@ + w.tmp_path@ + tail);
            ends_with("failed to write tmp file: "@ + w.tmp_path@, tail, u);
        },
        WriteStage::Sync => {
            assert(u =~= "failed to fsync tmp file: "@ + w.tmp_path@ + tail);
            ends_with("failed to fsync tmp file: "@ + w.tmp_path@, tail, u);
        },
        WriteStage::Rename | WriteStage::Done => {
            assert(u =~= "failed to rename "@ + w.tmp_path@ + (" to "@ + w.path@ + tail));
            assert(u =~= "failed to rename "@ + (w.tmp_path@ + " to "@ + w.path@) + tail);
            ends_with("failed to rename "@ + (w.tmp_path@ + " to "@ + w.path@), tail, u);
        },
    }
}

/// A write that is about to put `content` at `name` in `dir` has not been started:
/// it goes by way of the temporary sibling of that path.
pub proof fn fresh_write_is_of_the_file(w: AtomicWrite, dir: Seq<char>, name: Seq<char>, content: Seq<char>)
    requires
        w.is_fresh(dir, name, content),
    ensures
        w.path@ == join(dir, name),
        w.tmp_path@ == tmp_sibling(join(dir, name)),
        w.content@ == content,
        w.stage == WriteStage::Create,
        w.failure is None,
{
}

/// Writing a state replaces the file `state` by the text of the state with the time,
/// or fails because the clock could not be read.
pub proof fn state_is_written_to_its_file(
    state: State,
    dir: Seq<char>,
    now: Reading,
    r: Result<AtomicWrite, StateError>,
)
    requires
        state.is_written_at(dir, now, r),
    ensures
        now matches Ok(ts) ==> (r matches Ok(w) && w.path@ == join(dir, "state"@) && w.content@ == state.file_text(ts)
            && w.tmp_path@ == tmp_sibling(join(dir, "state"@)) && w.stage == WriteStage::Create && w.failure is None),
        now matches Err(cause) ==> r == Err::<AtomicWrite, _>(StateError::ClockBeforeEpoch { cause }),
{
}

} // verus!
