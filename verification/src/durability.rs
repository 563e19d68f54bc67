//! What is read back of what was written, and what an interrupted write leaves.

use vstd::prelude::*;

use crate::number::{decimal, decimal_denotes, decimal_round_trip, digits_are_not_space, number_of};
use crate::path::{
    extension, file_name, is_plain_name, join, join_is_injective_in_name, tmp_sibling, tmp_sibling_is_another,
    tmp_sibling_of_plain,
};
use crate::state::{
    field_len, first_field, other_fields, state_of, write_next, AtomicWrite, State, WriteStage,
};
use crate::text::{is_space, trim, trim_end, trim_start};

verus! {

broadcast use vstd::string::group_string_axioms;

/// Whether `s` holds nothing but white space.
pub open spec fn all_space(s: Seq<char>) -> bool {
    forall|i: int| 0 <= i < s.len() ==> is_space(#[trigger] s[i])
}

/// White space around a text is what trimming takes away.
pub proof fn trim_takes_padding(before: Seq<char>, s: Seq<char>, after: Seq<char>)
    requires
        all_space(before),
        all_space(after),
        s.len() > 0,
        !is_space(s[0]),
        !is_space(s.last()),
    ensures
        trim(before + s + after) == s,
{
    trim_start_takes(before, s + after);
    assert(before + s + after =~= before + (s + after));
    assert((s + after)[0] == s[0]);
    trim_end_takes(s, after);
}

/// White space in front is gone after trimming.
pub proof fn trim_start_takes(before: Seq<char>, s: Seq<char>)
    requires
        all_space(before),
    ensures
        trim_start(before + s) == trim_start(s),
    decreases before.len(),
{
    if before.len() == 0 {
        assert(before + s =~= s);
    } else {
        assert((before + s)[0] == before[0]);
        assert((before + s).skip(1) =~= before.skip(1) + s);
        assert(all_space(before.skip(1))) by {
            assert forall|i: int| 0 <= i < before.skip(1).len() implies is_space(#[trigger] before.skip(1)[i]) by {
                assert(is_space(before[i + 1]));
            }
        }
        trim_start_takes(before.skip(1), s);
    }
}

/// White space behind is gone after trimming.
pub proof fn trim_end_takes(s: Seq<char>, after: Seq<char>)
    requires
        all_space(after),
    ensures
        trim_end(s + after) == trim_end(s),
    decreases after.len(),
{
    if after.len() == 0 {
        assert(s + after =~= s);
    } else {
        assert((s + after).last() == after.last());
        assert((s + after).drop_last() =~= s + after.drop_last());
        assert(all_space(after.drop_last())) by {
            assert forall|i: int| 0 <= i < after.drop_last().len() implies is_space(
                #[trigger] after.drop_last()[i],
            ) by {
                assert(is_space(after[i]));
            }
        }
        trim_end_takes(s, after.drop_last());
    }
}

/// The first colon ends the first field.
pub proof fn fields_split(a: Seq<char>, b: Seq<char>)
    requires
        forall|i: int| 0 <= i < a.len() ==> #[trigger] a[i] != ':',
    ensures
        first_field(a + seq![':'] + b) == a,
        other_fields(a + seq![':'] + b) == b,
{
    let s = a + seq![':'] + b;
    field_len_at_colon(a, b);
    assert(s.take(a.len() as int) =~= a);
    assert(s.skip(a.len() as int + 1) =~= b);
}

proof fn field_len_at_colon(a: Seq<char>, b: Seq<char>)
    requires
        forall|i: int| 0 <= i < a.len() ==> #[trigger] a[i] != ':',
    ensures
        field_len(a + seq![':'] + b) == a.len(),
    decreases a.len(),
{
    let s = a + seq![':'] + b;
    if a.len() > 0 {
        assert(s.skip(1) =~= a.skip(1) + seq![':'] + b);
        assert(s[0] == a[0]);
        field_len_at_colon(a.skip(1), b);
    }
}

/// A state file gives back the state that was written to it, whatever the
/// timestamp in it, and whatever white space surrounds the text.
pub proof fn state_is_read_back(state: State, ts: u64, before: Seq<char>, after: Seq<char>)
    requires
        all_space(before),
        all_space(after),
    ensures
        state_of(trim(before + state.file_text(ts) + after)) == Some(state),
{
    reveal_strlit("idle::");
    reveal_strlit("idle");
    reveal_strlit("in_progress:");
    reveal_strlit("in_progress");
    reveal_strlit("full");
    reveal_strlit("incremental");
    reveal_strlit("s3_upload");
    reveal_strlit(":");
    let text = state.file_text(ts);
    let d = decimal(ts as nat);
    decimal_denotes(ts as nat);
    digits_are_not_space(d);
    assert(text.last() == d.last());
    assert(text[0] == 'i');
    trim_takes_padding(before, text, after);
    match state {
        State::Idle => {
            assert(text =~= "idle"@ + seq![':'] + (seq![':'] + d));
            fields_split("idle"@, seq![':'] + d);
        },
        State::InProgress(op) => {
            let rest = op.text() + seq![':'] + d;
            assert(text =~= "in_progress"@ + seq![':'] + rest);
            fields_split("in_progress"@, rest);
            fields_split(op.text(), d);
            assert("in_progress"@.len() != "idle"@.len());
            assert("full"@.len() == 4 && "incremental"@.len() == 11 && "s3_upload"@.len() == 9);
        },
    }
}

/// A timestamp file gives back the timestamp that was written to it, whatever
/// white space surrounds the number.
pub proof fn timestamp_is_read_back(ts: u64, before: Seq<char>, after: Seq<char>)
    requires
        all_space(before),
        all_space(after),
    ensures
        number_of(trim(before + decimal(ts as nat) + after)) == Some(ts),
{
    let d = decimal(ts as nat);
    decimal_denotes(ts as nat);
    digits_are_not_space(d);
    trim_takes_padding(before, d, after);
    decimal_round_trip(ts);
}

/// A file: what it holds, and whether that has been flushed to disk.
pub struct FileModel {
    pub content: Seq<char>,
    pub flushed: bool,
}

/// The files of a disk, by path.
pub type Disk = Map<Seq<char>, FileModel>;

/// Whether performing the current step of `w`, with the result `reply`, can turn
/// the disk `before` into `after`. A path without a name is a directory, where no
/// file can be created. Filling the temporary file may fail halfway.
pub open spec fn step_effect(w: AtomicWrite, reply: Result<(), String>, before: Disk, after: Disk) -> bool {
    let tmp = w.tmp_path@;
    match w.stage {
        WriteStage::Create => if reply is Ok {
            file_name(tmp) is Some && after == before.insert(tmp, FileModel { content: seq![], flushed: false })
        } else {
            after == before
        },
        WriteStage::Fill => if reply is Ok {
            after == before.insert(tmp, FileModel { content: w.content@, flushed: false })
        } else {
            exists|part: Seq<char>| after == #[trigger] before.insert(
                tmp,
                FileModel { content: part, flushed: false },
            )
        },
        WriteStage::Sync => if reply is Ok {
            after == before.insert(tmp, FileModel { content: before[tmp].content, flushed: true })
        } else {
            after == before
        },
        WriteStage::Rename => if reply is Ok {
            after == before.remove(tmp).insert(w.path@, before[tmp])
        } else {
            after == before
        },
        WriteStage::Done => after == before,
    }
}

/// Whether `disks` are the states of a disk, and `writes` those of an atomic
/// write, as the results `replies` of its steps come in.
pub open spec fn is_history(
    writes: Seq<AtomicWrite>,
    replies: Seq<Result<(), String>>,
    disks: Seq<Disk>,
) -> bool {
    &&& writes.len() == replies.len() + 1
    &&& disks.len() == replies.len() + 1
    &&& forall|k: int|
        #![trigger replies[k]]
        0 <= k < replies.len() ==> {
            &&& writes[k + 1] == write_next(writes[k], replies[k])
            &&& step_effect(writes[k], replies[k], disks[k], disks[k + 1])
        }
}

/// An atomic write that is interrupted at any point leaves the file either as it
/// was or with the whole new content, and the latter only once it is flushed. It
/// touches no file but this one and its temporary sibling. When it reports
/// success the new content is in place and the sibling is gone; when it reports a
/// failure the old content is in place.
///
/// A file with the extension `tmp` is its own sibling, so it is not replaced
/// atomically. A path without a name is its own sibling too, and never written.
pub proof fn replacement_is_atomic(
    path: Seq<char>,
    content: Seq<char>,
    writes: Seq<AtomicWrite>,
    replies: Seq<Result<(), String>>,
    disks: Seq<Disk>,
    k: int,
)
    requires
        extension(path) != Some("tmp"@),
        is_history(writes, replies, disks),
        writes[0].replaces(path, content),
        0 <= k < disks.len(),
    ensures
        ({
            let tmp = tmp_sibling(path);
            let new = FileModel { content, flushed: true };
            &&& disks[k].remove(tmp) == disks[0].remove(tmp) || disks[k].remove(tmp) == disks[0].remove(tmp).insert(
                path,
                new,
            )
            &&& writes[k].stage == WriteStage::Done && writes[k].failure is None ==> disks[k].contains_pair(path, new)
                && !disks[k].contains_key(tmp)
            &&& writes[k].failure is Some ==> disks[k].remove(tmp) == disks[0].remove(tmp)
            &&& path == tmp ==> disks[k] == disks[0]
        }),
{
    history_facts(path, content, writes, replies, disks, k);
    let tmp = tmp_sibling(path);
    if writes[k].stage == WriteStage::Done && writes[k].failure is None {
        assert(disks[k].remove(tmp).contains_key(path));
        assert(disks[k].remove(tmp)[path] == disks[k][path]);
    }
}

/// A state file that could be read before a write of the state can be read at
/// every point of it, and gives either the old state or the new one. Once the
/// write reports success it gives the new one.
pub proof fn state_stays_readable(
    dir: Seq<char>,
    old_state: State,
    new_state: State,
    ts: u64,
    writes: Seq<AtomicWrite>,
    replies: Seq<Result<(), String>>,
    disks: Seq<Disk>,
    k: int,
)
    requires
        is_history(writes, replies, disks),
        writes[0].is_fresh(dir, "state"@, new_state.file_text(ts)),
        0 <= k < disks.len(),
        disks[0].contains_key(join(dir, "state"@)),
        state_of(trim(disks[0][join(dir, "state"@)].content)) == Some(old_state),
    ensures
        disks[k].contains_key(join(dir, "state"@)),
        ({
            let found = state_of(trim(disks[k][join(dir, "state"@)].content));
            &&& found == Some(old_state) || found == Some(new_state)
            &&& writes[k].stage == WriteStage::Done && writes[k].failure is None ==> found == Some(new_state)
        }),
{
    reveal_strlit("state");
    let path = join(dir, "state"@);
    let tmp = tmp_sibling(path);
    tmp_sibling_of_plain(dir, "state"@);
    tmp_sibling_is_another(path);
    let content = new_state.file_text(ts);
    let new = FileModel { content, flushed: true };
    replacement_is_atomic(path, content, writes, replies, disks, k);
    history_facts(path, content, writes, replies, disks, k);
    state_is_read_back(new_state, ts, seq![], seq![]);
    assert(Seq::<char>::empty() + content + Seq::<char>::empty() =~= content);
    assert(disks[0].remove(tmp).contains_key(path));
    assert(disks[0].remove(tmp).insert(path, new).contains_key(path));
    assert(disks[k].remove(tmp).contains_key(path));
    assert(disks[k].remove(tmp)[path] == disks[k][path]);
    assert(disks[0].remove(tmp)[path] == disks[0][path]);
}

proof fn history_facts(
    path: Seq<char>,
    content: Seq<char>,
    writes: Seq<AtomicWrite>,
    replies: Seq<Result<(), String>>,
    disks: Seq<Disk>,
    k: int,
)
    requires
        extension(path) != Some("tmp"@),
        is_history(writes, replies, disks),
        writes[0].replaces(path, content),
        0 <= k < disks.len(),
    ensures
        ({
            let tmp = tmp_sibling(path);
            let new = FileModel { content, flushed: true };
            let w = writes[k];
            let disk = disks[k];
            &&& path == tmp ==> {
                &&& file_name(tmp) is None
                &&& w.stage == WriteStage::Create || w.failure is Some
                &&& disk == disks[0]
            }
            &&& w.path@ == path
            &&& w.tmp_path@ == tmp
            &&& w.content@ == content
            &&& w.stage == WriteStage::Done && w.failure is None ==> disk.remove(tmp) == disks[0].remove(tmp).insert(
                path,
                new,
            )
            &&& !(w.stage == WriteStage::Done && w.failure is None) ==> disk.remove(tmp) == disks[0].remove(tmp)
            &&& w.stage == WriteStage::Sync ==> disk.contains_key(tmp) && disk[tmp].content == content
            &&& w.stage == WriteStage::Rename ==> disk.contains_pair(tmp, new)
            &&& w.failure is Some ==> w.stage == WriteStage::Done
            &&& w.stage == WriteStage::Done && w.failure is None ==> !disk.contains_key(tmp)
        }),
    decreases k,
{
    let tmp = tmp_sibling(path);
    if file_name(path) is Some {
        tmp_sibling_is_another(path);
    }
    if k > 0 {
        history_facts(path, content, writes, replies, disks, k - 1);
        let reply = replies[k - 1];
        let u = writes[k - 1];
        let before = disks[k - 1];
        let after = disks[k];
        assert(step_effect(u, reply, before, after));
        assert(writes[k] == write_next(u, reply));
        let new = FileModel { content, flushed: true };
        assert forall|f: FileModel| #[trigger] before.insert(tmp, f).remove(tmp) == before.remove(tmp) by {
            assert(before.insert(tmp, f).remove(tmp) =~= before.remove(tmp));
        }
        if u.stage == WriteStage::Rename && reply is Ok {
            assert(after.remove(tmp) =~= before.remove(tmp).insert(path, new));
        }
    }
}

/// An atomic write of `content` to `path`, as it goes on.
pub struct History {
    pub path: Seq<char>,
    pub content: Seq<char>,
    pub writes: Seq<AtomicWrite>,
    pub replies: Seq<Result<(), String>>,
    pub disks: Seq<Disk>,
}

/// Whether the writes of `chain` are done one after another, each on the disk that
/// the one before it leaves. Any of them may be interrupted.
pub open spec fn is_chain(chain: Seq<History>) -> bool {
    &&& forall|i: int|
        0 <= i < chain.len() ==> {
            &&& is_history((#[trigger] chain[i]).writes, chain[i].replies, chain[i].disks)
            &&& chain[i].writes[0].replaces(chain[i].path, chain[i].content)
        }
    &&& forall|i: int| 0 < i < chain.len() ==> (#[trigger] chain[i]).disks[0] == chain[i - 1].disks.last()
}

/// Whether the file at `path` is the same on both disks, or missing from both.
pub open spec fn same_file(a: Disk, b: Disk, path: Seq<char>) -> bool {
    &&& a.contains_key(path) <==> b.contains_key(path)
    &&& a.contains_key(path) ==> a[path] == b[path]
}

/// A chain of atomic writes leaves a file as it was, at every point of it, where
/// the file is neither the target of one of the writes nor its temporary sibling.
pub proof fn writes_leave_other_files(path: Seq<char>, chain: Seq<History>, i: int, k: int)
    requires
        is_chain(chain),
        forall|j: int|
            0 <= j < chain.len() ==> path != (#[trigger] chain[j]).path && path != tmp_sibling(chain[j].path),
        0 <= i < chain.len(),
        0 <= k < chain[i].disks.len(),
    ensures
        same_file(chain[0].disks[0], chain[i].disks[k], path),
    decreases i,
{
    let h = chain[i];
    write_leaves_other_files(path, h, k);
    if i > 0 {
        let before = chain[i - 1];
        writes_leave_other_files(path, chain, i - 1, before.disks.len() - 1);
        assert(h.disks[0] == before.disks.last());
    }
}

proof fn write_leaves_other_files(path: Seq<char>, h: History, k: int)
    requires
        is_history(h.writes, h.replies, h.disks),
        h.writes[0].replaces(h.path, h.content),
        path != h.path,
        path != tmp_sibling(h.path),
        0 <= k < h.disks.len(),
    ensures
        h.writes[k].path@ == h.path,
        h.writes[k].tmp_path@ == tmp_sibling(h.path),
        same_file(h.disks[0], h.disks[k], path),
    decreases k,
{
    if k > 0 {
        write_leaves_other_files(path, h, k - 1);
        let reply = h.replies[k - 1];
        assert(step_effect(h.writes[k - 1], reply, h.disks[k - 1], h.disks[k]));
        assert(h.writes[k] == write_next(h.writes[k - 1], reply));
    }
}

/// Whether `h` is the write of a timestamp file in `dir`.
pub open spec fn writes_timestamp(dir: Seq<char>, h: History) -> bool {
    h.path == join(dir, "last_full_backup"@) || h.path == join(dir, "last_incremental_backup"@)
}

/// A chain of writes of the timestamp files leaves the state file as it was, at
/// every point of it.
pub proof fn timestamp_writes_leave_the_state(dir: Seq<char>, chain: Seq<History>, i: int, k: int)
    requires
        is_chain(chain),
        forall|j: int| 0 <= j < chain.len() ==> writes_timestamp(dir, #[trigger] chain[j]),
        0 <= i < chain.len(),
        0 <= k < chain[i].disks.len(),
    ensures
        same_file(chain[0].disks[0], chain[i].disks[k], join(dir, "state"@)),
{
    reveal_strlit("state");
    reveal_strlit("last_full_backup");
    reveal_strlit("last_incremental_backup");
    let path = join(dir, "state"@);
    plain_names_are_apart(dir, "state"@, "last_full_backup"@);
    plain_names_are_apart(dir, "state"@, "last_incremental_backup"@);
    assert forall|j: int| 0 <= j < chain.len() implies path != (#[trigger] chain[j]).path && path != tmp_sibling(
        chain[j].path,
    ) by {
        assert(writes_timestamp(dir, chain[j]));
    }
    writes_leave_other_files(path, chain, i, k);
}

/// A plain name is neither another plain name nor its temporary sibling.
proof fn plain_names_are_apart(dir: Seq<char>, a: Seq<char>, b: Seq<char>)
    requires
        is_plain_name(a),
        is_plain_name(b),
        a != b,
    ensures
        join(dir, a) != join(dir, b),
        join(dir, a) != tmp_sibling(join(dir, b)),
{
    reveal_strlit(".tmp");
    let c = b + ".tmp"@;
    tmp_sibling_of_plain(dir, b);
    assert(a[0] != '/' && b[0] != '/' && c[0] == b[0]);
    if join(dir, a) == join(dir, b) {
        join_is_injective_in_name(dir, a, b);
    }
    if join(dir, a) == join(dir, c) {
        join_is_injective_in_name(dir, a, c);
        assert(a[b.len() as int] == '.');
    }
}

} // verus!
