//! Which of the listed mounts a path is on, and what the startup validations make
//! of it.

use vstd::prelude::*;
use vstd::utf8::encode_utf8;

use crate::cmd::{CommandView, Outcome};
use crate::durability::all_space;
use crate::location::{prefix_is_by_whole_components, what_is_below_starts_with_it};
use crate::number::decimal_int;
use crate::path::{components, starts_with};
use crate::text::{lines, lossy_text, trim, words};
use crate::tokens::{
    ends_word, is_gap, is_one_line, is_word, lines_are_given_back, text_of_lines, three_words_come_first,
};
use crate::validation::{
    backup_fs_verdict, covers, is_mount_of, line_mount, line_mounts, mount_texts, on_btrfs, only_one_mount, point_len,
    show_command, source_verdict, validation_next, Mount, MountText, Validation, ValidationError, ValidationFailure,
    ValidationReply, ValidationStage, PROC_MOUNTS,
};
use crate::verdict::{ends_with, mentions};

verus! {

/// A mount covers exactly the paths whose first components are those of its mount
/// point.
pub proof fn mount_covers_what_is_below_it(m: MountText, path: Seq<char>)
    ensures
        covers(m, path) <==> {
            &&& components(m.1).len() <= components(path).len()
            &&& forall|i: int| 0 <= i < components(m.1).len() ==> #[trigger] components(m.1)[i] == components(path)[i]
        },
{
    prefix_is_by_whole_components(path, m.1);
}

/// The text of a list of mounts is that of its mounts, one for one.
pub proof fn mounts_are_item_by_item(mounts: Seq<Mount>)
    ensures
        mount_texts(mounts).len() == mounts.len(),
        forall|i: int|
            0 <= i < mounts.len() ==> #[trigger] mount_texts(mounts)[i] == (
                mounts[i].0@,
                mounts[i].1@,
                mounts[i].2@,
            ),
{
}

/// A path is on no btrfs filesystem where nothing is mounted.
pub proof fn nothing_mounted_is_no_btrfs(path: Seq<char>)
    ensures
        !on_btrfs(seq![], path),
{
}

/// What listing one more mount, behind the others, changes. It decides where it
/// covers the path and no listed mount that covers it has a longer mount point, in
/// bytes. Otherwise it changes nothing.
pub proof fn one_more_mount_decides_where_it_is_longest(mounts: Seq<MountText>, m: MountText, path: Seq<char>)
    ensures
        on_btrfs(mounts.push(m), path) <==> if starts_with(path, m.1) && forall|k: int|
            0 <= k < mounts.len() && starts_with(path, (#[trigger] mounts[k]).1) ==> encode_utf8(mounts[k].1).len()
                <= encode_utf8(m.1).len() {
            m.2 == "btrfs"@
        } else {
            on_btrfs(mounts, path)
        },
{
    let all = mounts.push(m);
    let n = mounts.len() as int;
    assert(all[n] == m);
    assert(forall|k: int| 0 <= k < n ==> #[trigger] all[k] == mounts[k]);
    if starts_with(path, m.1) && forall|k: int|
        0 <= k < mounts.len() && starts_with(path, (#[trigger] mounts[k]).1) ==> encode_utf8(mounts[k].1).len()
            <= encode_utf8(m.1).len() {
        assert(is_mount_of(all, path, n)) by {
            assert forall|k: int| 0 <= k < all.len() && covers(#[trigger] all[k], path) implies point_len(all[k])
                <= point_len(all[n]) by {
                if k < n {
                    assert(starts_with(path, mounts[k].1));
                }
            }
        }
        if on_btrfs(all, path) {
            let w = choose|w: int| #[trigger] is_mount_of(all, path, w) && all[w].2 == "btrfs"@;
            only_one_mount(all, path, w, n);
        }
    } else {
        assert forall|i: int| 0 <= i < n implies #[trigger] is_mount_of(mounts, path, i) == is_mount_of(all, path, i) by {
            if is_mount_of(mounts, path, i) {
                assert forall|k: int| 0 <= k < all.len() && covers(#[trigger] all[k], path) implies (point_len(all[k])
                    < point_len(all[i]) || (point_len(all[k]) == point_len(all[i]) && k <= i)) by {
                    if k < n {
                        assert(covers(mounts[k], path));
                    } else {
                        let j = choose|j: int|
                            0 <= j < mounts.len() && starts_with(path, (#[trigger] mounts[j]).1) && encode_utf8(
                                mounts[j].1,
                            ).len() > encode_utf8(m.1).len();
                        assert(covers(mounts[j], path));
                    }
                }
            }
            if is_mount_of(all, path, i) {
                assert(covers(all[i], path));
                assert forall|k: int| 0 <= k < mounts.len() && covers(#[trigger] mounts[k], path) implies (point_len(
                    mounts[k],
                ) < point_len(mounts[i]) || (point_len(mounts[k]) == point_len(mounts[i]) && k <= i)) by {
                    assert(covers(all[k], path));
                }
            }
        }
        assert(!is_mount_of(all, path, n)) by {
            if is_mount_of(all, path, n) {
                assert(covers(all[n], path));
                let j = choose|j: int|
                    0 <= j < mounts.len() && starts_with(path, (#[trigger] mounts[j]).1) && encode_utf8(
                        mounts[j].1,
                    ).len() > encode_utf8(m.1).len();
                assert(covers(all[j], path));
            }
        }
        if on_btrfs(all, path) {
            let w = choose|w: int| #[trigger] is_mount_of(all, path, w) && all[w].2 == "btrfs"@;
            assert(is_mount_of(all, path, w));
            assert(w != n);
            assert(is_mount_of(mounts, path, w));
        }
        if on_btrfs(mounts, path) {
            let w = choose|w: int| #[trigger] is_mount_of(mounts, path, w) && mounts[w].2 == "btrfs"@;
            assert(is_mount_of(all, path, w));
        }
    }
}

/// A mount at the root covers every absolute path, so that with no other mount its
/// type alone decides.
pub proof fn root_mount_covers_every_absolute_path(device: Seq<char>, kind: Seq<char>, path: Seq<char>)
    requires
        path.len() > 0,
        path[0] == '/',
    ensures
        covers((device, seq!['/'], kind), path),
        on_btrfs(seq![(device, seq!['/'], kind)], path) <==> kind == "btrfs"@,
{
    let m = (device, seq!['/'], kind);
    what_is_below_starts_with_it(path, seq![]);
    one_more_mount_decides_where_it_is_longest(seq![], m, path);
    assert(Seq::<MountText>::empty().push(m) =~= seq![m]);
}

/// A line of `/proc/mounts`, taken apart.
pub enum MountLine {
    /// Three words, and whatever follows them.
    Mounted {
        lead: Seq<char>,
        device: Seq<char>,
        gap: Seq<char>,
        point: Seq<char>,
        next_gap: Seq<char>,
        kind: Seq<char>,
        rest: Seq<char>,
    },
    /// Fewer words.
    Short { line: Seq<char> },
}

impl MountLine {
    /// The line, put together.
    pub open spec fn text(self) -> Seq<char> {
        match self {
            MountLine::Mounted { lead, device, gap, point, next_gap, kind, rest } => lead + device + gap + point
                + next_gap + kind + rest,
            MountLine::Short { line } => line,
        }
    }

    /// Whether the words are words, the gaps between them are gaps, and it is one
    /// line.
    pub open spec fn is_valid(self) -> bool {
        &&& is_one_line(self.text())
        &&& self.text().len() == 0 || self.text().last() != '\r'
        &&& match self {
            MountLine::Mounted { lead, device, gap, point, next_gap, kind, rest } => {
                &&& all_space(lead)
                &&& is_word(device)
                &&& is_gap(gap)
                &&& is_word(point)
                &&& is_gap(next_gap)
                &&& is_word(kind)
                &&& ends_word(rest)
            },
            MountLine::Short { line } => words(line).len() < 3,
        }
    }
}

/// The text of a list of lines.
pub open spec fn mount_lines(ls: Seq<MountLine>) -> Seq<Seq<char>> {
    ls.map_values(|l: MountLine| l.text())
}

/// The device, the mount point and the type of every line that has them, in order.
pub open spec fn mounted(ls: Seq<MountLine>) -> Seq<MountText>
    decreases ls.len(),
{
    if ls.len() == 0 {
        seq![]
    } else {
        match ls.last() {
            MountLine::Mounted { device, point, kind, .. } => mounted(ls.drop_last()).push((device, point, kind)),
            MountLine::Short { .. } => mounted(ls.drop_last()),
        }
    }
}

/// Parsing `/proc/mounts` gives the first three words of every line that has as
/// many, in order, whatever they are and whatever follows them; shorter lines give
/// nothing.
pub proof fn mounts_are_read_line_by_line(ls: Seq<MountLine>)
    requires
        forall|i: int| 0 <= i < ls.len() ==> (#[trigger] ls[i]).is_valid(),
    ensures
        line_mounts(lines(text_of_lines(mount_lines(ls), seq![]))) == mounted(ls),
{
    let ts = mount_lines(ls);
    assert forall|i: int| 0 <= i < ts.len() implies is_one_line(#[trigger] ts[i]) && (ts[i].len() == 0
        || ts[i].last() != '\r') by {
        assert(ls[i].is_valid());
    }
    lines_are_given_back(ts, seq![]);
    mounts_add_up(ls);
}

proof fn mounts_add_up(ls: Seq<MountLine>)
    requires
        forall|i: int| 0 <= i < ls.len() ==> (#[trigger] ls[i]).is_valid(),
    ensures
        line_mounts(mount_lines(ls)) == mounted(ls),
    decreases ls.len(),
{
    if ls.len() > 0 {
        let before = ls.drop_last();
        let last = ls.last();
        assert(forall|i: int| 0 <= i < before.len() ==> #[trigger] before[i] == ls[i]);
        mounts_add_up(before);
        assert(mount_lines(ls).drop_last() =~= mount_lines(before));
        assert(mount_lines(ls).last() == last.text());
        assert(ls[ls.len() - 1].is_valid());
        match last {
            MountLine::Mounted { lead, device, gap, point, next_gap, kind, rest } => {
                three_words_come_first(lead, device, gap, point, next_gap, kind, rest);
                let w = words(last.text());
                assert(w[0] == device && w[1] == point && w[2] == kind);
                assert(line_mount(last.text()) =~= seq![(device, point, kind)]);
                assert(mounted(before) + seq![(device, point, kind)] =~= mounted(ls));
            },
            MountLine::Short { line } => {
                assert(line_mount(line) =~= seq![]);
                assert(mounted(before) + Seq::<MountText>::empty() =~= mounted(before));
            },
        }
    }
}

/// The backup path is accepted exactly where `/proc/mounts` can be read and the
/// mount that it puts the path on is a btrfs filesystem.
pub proof fn backup_path_is_accepted_on_btrfs_only(path: String, text: String, ls: Seq<MountLine>, cause: String)
    requires
        forall|i: int| 0 <= i < ls.len() ==> (#[trigger] ls[i]).is_valid(),
        text@ == text_of_lines(mount_lines(ls), seq![]),
    ensures
        on_btrfs(mounted(ls), path@) ==> backup_fs_verdict(path, Ok(text)) is Ok,
        !on_btrfs(mounted(ls), path@) ==> backup_fs_verdict(path, Ok(text)) == Err::<(), _>(
            ValidationError::NotBtrfs { path },
        ),
        backup_fs_verdict(path, Err(cause)) == Err::<(), _>(ValidationError::MountsUnreadable { cause }),
{
    mounts_are_read_line_by_line(ls);
}

/// Both validations, told the outcome of the command and then the mounts, succeed
/// exactly where the command exits with code 0 and the backup path is accepted. The
/// failure of the first one ends them without a look at the mounts.
pub proof fn validation_judges_both_disks(v: Validation, outcome: Outcome, mounts: Result<String, String>)
    requires
        v.stage == ValidationStage::Source,
        v.failure is None,
    ensures
        ({
            let half = validation_next(v, ValidationReply::Source(outcome));
            let end = validation_next(half, ValidationReply::Mounts(mounts));
            let source_ok = outcome matches Outcome::Exited(o) && o.status.code == Some(0i32);
            &&& source_ok ==> half.stage == ValidationStage::Mounts && half.failure is None
            &&& !source_ok ==> half.stage == ValidationStage::Done && end == half
            &&& !source_ok ==> (half.failure matches Some(ValidationFailure::Source(e)) && source_verdict(
                v.source.path,
                outcome,
            ) == Err::<(), _>(e))
            &&& end.stage == ValidationStage::Done
            &&& end.failure is None <==> source_ok && backup_fs_verdict(v.backup.path, mounts) is Ok
            &&& source_ok ==> match backup_fs_verdict(v.backup.path, mounts) {
                Ok(()) => end.failure is None,
                Err(e) => end.failure == Some(ValidationFailure::Backup(e)),
            }
        }),
{
}

/// Whatever the validations are told, once they are done they stay as they are,
/// and what they are told out of turn changes nothing.
pub proof fn validation_heeds_only_what_it_waits_for(v: Validation, reply: ValidationReply)
    ensures
        v.stage == ValidationStage::Done ==> validation_next(v, reply) == v,
        v.stage == ValidationStage::Source && reply is Mounts ==> validation_next(v, reply) == v,
        v.stage == ValidationStage::Mounts && reply is Source ==> validation_next(v, reply) == v,
        validation_next(v, reply).source == v.source,
        validation_next(v, reply).backup == v.backup,
{
}

/// The source is judged by `btrfs subvolume show`, the backup path by
/// `/proc/mounts`.
pub proof fn disks_are_judged_by_command_and_mounts(path: Seq<char>)
    ensures
        show_command(path) == (CommandView {
            program: "btrfs"@,
            args: seq!["subvolume"@, "show"@, path],
            env: seq![],
        }),
        PROC_MOUNTS@ == "/proc/mounts"@,
{
}

/// The message of a validation that failed names the path and ends with the reason;
/// that of the whole tells which disk it was about.
pub proof fn validation_messages_tell_path_and_cause(e: ValidationError)
    ensures
        match e {
            ValidationError::SourceSpawn { path, cause } => (path@ + ": "@ + cause@).is_suffix_of(e.text()),
            ValidationError::NotSubvolume { path, code, stderr } => {
                &&& mentions(e.text(), "'"@ + path@ + "'"@)
                &&& (decimal_int(code as int) + "): "@ + trim(lossy_text(stderr@))).is_suffix_of(e.text())
            },
            ValidationError::MountsUnreadable { cause } => (": "@ + cause@).is_suffix_of(e.text()),
            ValidationError::NotBtrfs { path } => mentions(e.text(), "'"@ + path@ + "'"@),
        },
        ValidationFailure::Source(e).text() == "source subvolume validation failed: "@ + e.text(),
        ValidationFailure::Backup(e).text() == "backup filesystem validation failed: "@ + e.text(),
{
    let t = e.text();
    match e {
        ValidationError::SourceSpawn { path, cause } => {
            ends_with("failed to spawn 'btrfs subvolume show' for path: "@, path@ + ": "@ + cause@, t);
        },
        ValidationError::NotSubvolume { path, code, stderr } => {
            reveal_strlit("path '");
            reveal_strlit("path ");
            reveal_strlit("'");
            reveal_strlit("' is not a btrfs subvolume (exit code ");
            reveal_strlit(" is not a btrfs subvolume (exit code ");
            let tail = decimal_int(code as int) + "): "@ + trim(lossy_text(stderr@));
            let middle = " is not a btrfs subvolume (exit code "@;
            assert("path '"@ =~= "path "@ + "'"@);
            assert("' is not a btrfs subvolume (exit code "@ =~= "'"@ + middle);
            assert(t =~= "path "@ + ("'"@ + path@ + "'"@) + (middle + tail));
            ends_with("path "@ + ("'"@ + path@ + "'"@) + middle, tail, t);
        },
        ValidationError::MountsUnreadable { cause } => {
            reveal_strlit("failed to read /proc/mounts for filesystem validation: failed to read /proc/mounts: ");
            reveal_strlit("failed to read /proc/mounts for filesystem validation: failed to read /proc/mounts");
            reveal_strlit(": ");
            let start = "failed to read /proc/mounts for filesystem validation: failed to read /proc/mounts"@;
            assert("failed to read /proc/mounts for filesystem validation: failed to read /proc/mounts: "@ =~= start
                + ": "@);
            assert(t =~= start + (": "@ + cause@));
            ends_with(start, ": "@ + cause@, t);
        },
        ValidationError::NotBtrfs { path } => {
            reveal_strlit("backup path '");
            reveal_strlit("backup path ");
            reveal_strlit("'");
            reveal_strlit(
                "' is not on a btrfs filesystem; Disk B must be formatted as btrfs to receive snapshots",
            );
            let tail = "' is not on a btrfs filesystem; Disk B must be formatted as btrfs to receive snapshots"@;
            assert("backup path '"@ =~= "backup path "@ + "'"@);
            assert(tail =~= "'"@ + tail.skip(1));
            assert(t =~= "backup path "@ + ("'"@ + path@ + "'"@) + tail.skip(1));
        },
    }
}

} // verus!
