//! How backups proceed: what is done before what, what a failure leaves undone,
//! and what success means.
//!
//! A run is told what came of one action after another. The laws hold of every
//! run, whatever it is told.

use vstd::prelude::*;

use crate::backup::action::{delete_subvolume, state_action, ActionView, Reply};
use crate::backup::error::{BackupErrorView, Context};
use crate::backup::full::{
    clean_action, clean_next, fresh_clean_up, full_action, full_next, full_next_keeps_well_formed,
    full_start, is_old, is_skipped, next_old, next_old_bounds, CleanStage, CleanView, Entry, FullStage, FullView,
};
use crate::backup::incremental::{incr_action, incr_next, incr_start, IncrStage, IncrView};
use crate::backup::retention::expired_objects_are_valid;
use crate::backup::s3::{
    delete_object, expired, fresh_upload, is_object_name, s3_action, s3_next, S3Stage, S3View,
};
use crate::clock::{Clock, Reading};
use crate::cmd::CommandView;
use crate::config::Config;
use crate::number::{decimal, decimal_denotes, is_digit};
use crate::path::{is_absolute, join, join_is_injective_in_name};
use crate::snapshot::{FULL_PREFIX, INCR_PREFIX};
use crate::state::{Operation, State};

verus! {

/// What a full backup is told: what came of an action, and the time.
pub type Told = (Reply, Clock);

/// What an upload or an incremental backup is told.
pub type TimedReply = (Reply, Reading);

// ---------------------------------------------------------------------------
// Uploads
// ---------------------------------------------------------------------------

/// An upload after it has been told `told`.
pub open spec fn s3_run(v: S3View, told: Seq<TimedReply>) -> S3View
    decreases told.len(),
{
    if told.len() == 0 {
        v
    } else {
        s3_next(s3_run(v, told.drop_last()), told.last().0, told.last().1)
    }
}

/// The position of a stage in an upload.
pub open spec fn s3_rank(stage: S3Stage) -> int {
    match stage {
        S3Stage::ProbeKey => 0,
        S3Stage::MarkUpload(_) => 1,
        S3Stage::Stream => 2,
        S3Stage::List => 3,
        S3Stage::Delete(_) => 4,
        S3Stage::MarkIdle(_) => 5,
        S3Stage::Done => 6,
    }
}

/// Whether the `k`th reply ended the stage at position `rank` in success.
pub open spec fn s3_did(v: S3View, told: Seq<TimedReply>, rank: int, k: int) -> bool {
    let before = s3_run(v, told.take(k));
    let after = s3_run(v, told.take(k + 1));
    &&& 0 <= k < told.len()
    &&& s3_rank(before.stage) == rank
    &&& s3_rank(after.stage) > rank
    &&& after.failure is None
}

/// An upload that has not failed has done every step before the one that it is
/// about: it has found the key, marked the upload, streamed the snapshot and
/// listed the bucket, in this order, and each of them succeeded. One that is done
/// has marked the idle state as well.
pub proof fn upload_goes_step_by_step(config: Config, name: Seq<char>, told: Seq<TimedReply>, rank: int)
    requires
        s3_run(fresh_upload(config, name), told).failure is None,
        0 <= rank < s3_rank(s3_run(fresh_upload(config, name), told).stage),
        rank != 4,
    ensures
        exists|k: int| s3_did(fresh_upload(config, name), told, rank, k),
    decreases told.len(),
{
    let start = fresh_upload(config, name);
    if told.len() > 0 {
        let earlier = told.drop_last();
        let w = s3_run(start, earlier);
        let n = told.len() - 1;
        assert(told.take(n) =~= earlier);
        assert(told.take(n + 1) =~= told);
        if rank < s3_rank(w.stage) {
            upload_goes_step_by_step(config, name, earlier, rank);
            let k = choose|k: int| s3_did(start, earlier, rank, k);
            assert(earlier.take(k) =~= told.take(k));
            assert(earlier.take(k + 1) =~= told.take(k + 1));
            assert(s3_did(start, told, rank, k));
        } else {
            assert(s3_did(start, told, rank, n));
        }
    }
}

/// The steps of an upload are done in order.
pub proof fn upload_steps_are_ordered(
    config: Config,
    name: Seq<char>,
    told: Seq<TimedReply>,
    first: int,
    j: int,
    second: int,
    k: int,
)
    requires
        s3_did(fresh_upload(config, name), told, first, j),
        s3_did(fresh_upload(config, name), told, second, k),
        first < second,
    ensures
        j < k,
{
    if k < j {
        s3_rank_grows(fresh_upload(config, name), told, k + 1, j);
    }
}

proof fn s3_rank_grows(v: S3View, told: Seq<TimedReply>, a: int, b: int)
    requires
        0 <= a <= b <= told.len(),
    ensures
        s3_rank(s3_run(v, told.take(a)).stage) <= s3_rank(s3_run(v, told.take(b)).stage),
    decreases b - a,
{
    if a < b {
        s3_rank_grows(v, told, a, b - 1);
        assert(told.take(b).drop_last() =~= told.take(b - 1));
    }
}

/// The objects that an upload is going to delete are object names.
proof fn upload_holds_valid_objects(config: Config, name: Seq<char>, told: Seq<TimedReply>, i: int)
    requires
        0 <= i < s3_run(fresh_upload(config, name), told).doomed.len(),
    ensures
        is_object_name(s3_run(fresh_upload(config, name), told).doomed[i]),
    decreases told.len(),
{
    let start = fresh_upload(config, name);
    if told.len() > 0 {
        let w = s3_run(start, told.drop_last());
        let v = s3_run(start, told);
        if v.doomed == w.doomed {
            upload_holds_valid_objects(config, name, told.drop_last(), i);
        } else {
            let listing = told.last().0->Captured_0->Ok_0@;
            assert(v.doomed == expired(listing, w.config.s3.retention_count));
            expired_objects_are_valid(listing, w.config.s3.retention_count, i);
        }
    }
}

proof fn s3_run_well_formed(config: Config, name: Seq<char>, told: Seq<TimedReply>)
    ensures
        s3_run(fresh_upload(config, name), told).well_formed(),
        s3_run(fresh_upload(config, name), told).config == config,
    decreases told.len(),
{
    if told.len() > 0 {
        s3_run_well_formed(config, name, told.drop_last());
    }
}

/// An upload deletes nothing from the bucket but objects that are named like
/// uploaded snapshots.
pub proof fn upload_deletes_only_object_names(config: Config, name: Seq<char>, told: Seq<TimedReply>)
    requires
        s3_run(fresh_upload(config, name), told).stage is Delete,
    ensures
        exists|object: Seq<char>| #[trigger]
            is_object_name(object) && s3_action(s3_run(fresh_upload(config, name), told)) == ActionView::Run(
                delete_object(config, object),
            ),
{
    let v = s3_run(fresh_upload(config, name), told);
    let i = v.stage->Delete_0 as int;
    s3_run_well_formed(config, name, told);
    upload_holds_valid_objects(config, name, told, i);
    assert(is_object_name(v.doomed[i]));
}

/// Whether the `k`th reply is the listing of the bucket, and it reads `listing`.
pub open spec fn s3_listed(v: S3View, told: Seq<TimedReply>, listing: Seq<char>, k: int) -> bool {
    &&& 0 <= k < told.len()
    &&& s3_run(v, told.take(k)).stage == S3Stage::List
    &&& told[k].0 matches Reply::Captured(Ok(text))
    &&& text@ == listing
}

/// Whether the `j`th reply is the success of deleting `object`.
pub open spec fn s3_deleted(v: S3View, told: Seq<TimedReply>, object: Seq<char>, j: int) -> bool {
    &&& 0 <= j < told.len()
    &&& s3_action(s3_run(v, told.take(j))) == ActionView::Run(delete_object(v.config, object))
    &&& told[j].0 matches Reply::Ran(r)
    &&& r is Ok
}

/// Whether `object` has been deleted after the `k`th reply.
pub open spec fn s3_deleted_since(v: S3View, told: Seq<TimedReply>, object: Seq<char>, k: int) -> bool {
    exists|j: int| k < j && #[trigger] s3_deleted(v, told, object, j)
}

/// How many expired objects an upload has deleted.
pub open spec fn s3_progress(v: S3View) -> int {
    match v.stage {
        S3Stage::Delete(i) => i as int,
        S3Stage::MarkIdle(_) | S3Stage::Done => v.doomed.len() as int,
        _ => 0,
    }
}

/// The success of an upload means that every object of the listing that exceeds
/// the retention has been deleted.
pub proof fn upload_deletes_every_expired_object(config: Config, name: Seq<char>, told: Seq<TimedReply>)
    requires
        ({
            let v = s3_run(fresh_upload(config, name), told);
            v.stage == S3Stage::Done && v.failure is None && v.doomed.len() <= usize::MAX
        }),
    ensures
        exists|listing: Seq<char>, k: int|
            {
                &&& #[trigger] s3_listed(fresh_upload(config, name), told, listing, k)
                &&& forall|i: int|
                    0 <= i < expired(listing, config.s3.retention_count).len() ==> s3_deleted_since(
                        fresh_upload(config, name),
                        told,
                        #[trigger] expired(listing, config.s3.retention_count)[i],
                        k,
                    )
            },
{
    let (listing, k) = upload_progress(config, name, told);
    assert(s3_listed(fresh_upload(config, name), told, listing, k));
}

proof fn upload_progress(config: Config, name: Seq<char>, told: Seq<TimedReply>) -> (r: (Seq<char>, int))
    requires
        ({
            let v = s3_run(fresh_upload(config, name), told);
            s3_rank(v.stage) >= 4 && v.failure is None && v.doomed.len() <= usize::MAX
        }),
    ensures
        ({
            let start = fresh_upload(config, name);
            let v = s3_run(start, told);
            &&& s3_listed(start, told, r.0, r.1)
            &&& v.doomed == expired(r.0, config.s3.retention_count)
            &&& forall|i: int|
                0 <= i < s3_progress(v) ==> s3_deleted_since(start, told, #[trigger] v.doomed[i], r.1)
        }),
    decreases told.len(),
{
    let start = fresh_upload(config, name);
    let v = s3_run(start, told);
    let earlier = told.drop_last();
    let w = s3_run(start, earlier);
    let n = told.len() - 1;
    s3_run_well_formed(config, name, earlier);
    assert(told.take(n) =~= earlier);
    if w.stage == S3Stage::List {
        let listing = told.last().0->Captured_0->Ok_0@;
        assert(s3_listed(start, told, listing, n));
        assert(s3_progress(v) == 0);
        (listing, n)
    } else {
        let (listing, k) = upload_progress(config, name, earlier);
        assert(earlier.take(k) =~= told.take(k));
        assert(v.doomed == w.doomed);
        assert forall|i: int| 0 <= i < s3_progress(v) implies s3_deleted_since(
            start,
            told,
            #[trigger] v.doomed[i],
            k,
        ) by {
            if i < s3_progress(w) {
                assert(s3_deleted_since(start, earlier, w.doomed[i], k));
                let j = choose|j: int| k < j && #[trigger] s3_deleted(start, earlier, w.doomed[i], j);
                assert(earlier.take(j) =~= told.take(j));
                assert(s3_deleted(start, told, v.doomed[i], j));
            } else {
                assert(w.stage == S3Stage::Delete(i as usize));
                assert(told[n].0 is Ran);
                assert(s3_deleted(start, told, v.doomed[i], n));
            }
        }
        (listing, k)
    }
}

/// Nothing is asked for after an upload has failed.
pub proof fn failed_upload_stops(config: Config, name: Seq<char>, told: Seq<TimedReply>, more: Seq<TimedReply>)
    requires
        s3_run(fresh_upload(config, name), told).failure is Some,
    ensures
        s3_run(s3_run(fresh_upload(config, name), told), more) == s3_run(fresh_upload(config, name), told),
        s3_action(s3_run(fresh_upload(config, name), told)) == ActionView::Stop,
    decreases told.len() + more.len(),
{
    let start = fresh_upload(config, name);
    if more.len() > 0 {
        failed_upload_stops(config, name, told, more.drop_last());
    }
    if told.len() > 0 && s3_run(start, told.drop_last()).failure is Some {
        failed_upload_stops(config, name, told.drop_last(), seq![]);
    }
}

// ---------------------------------------------------------------------------
// The deletion of old snapshots
// ---------------------------------------------------------------------------

/// A clean-up after it has been told `told`.
pub open spec fn clean_run(v: CleanView, told: Seq<Reply>) -> CleanView
    decreases told.len(),
{
    if told.len() == 0 {
        v
    } else {
        clean_next(clean_run(v, told.drop_last()), told.last())
    }
}

proof fn clean_run_facts(dir: Seq<char>, keep: Seq<char>, told: Seq<Reply>)
    ensures
        ({
            let v = clean_run(fresh_clean_up(dir, keep), told);
            &&& v.dir == dir
            &&& v.keep == keep
            &&& v.entries.len() <= usize::MAX
            &&& v.well_formed()
        }),
    decreases told.len(),
{
    if told.len() > 0 {
        let w = clean_run(fresh_clean_up(dir, keep), told.drop_last());
        clean_run_facts(dir, keep, told.drop_last());
        match (w.stage, told.last()) {
            (CleanStage::List, Reply::Listed(Ok(entries))) => {
                assert(entries.len() == entries@.len());
                next_old_bounds(entries@, keep, 0);
            },
            (CleanStage::Delete(i), Reply::Ran(Ok(()))) => {
                next_old_bounds(w.entries, keep, i + 1);
            },
            _ => {},
        }
    }
}

/// A clean-up deletes nothing but listed entries with the prefix of a full or an
/// incremental backup, and never the snapshot that is to be kept.
pub proof fn clean_up_deletes_only_old_snapshots(dir: Seq<char>, keep: Seq<char>, told: Seq<Reply>)
    requires
        !is_absolute(keep),
        clean_run(fresh_clean_up(dir, keep), told).stage is Delete,
    ensures
        ({
            let v = clean_run(fresh_clean_up(dir, keep), told);
            exists|i: int|
                {
                    &&& 0 <= i < v.entries.len()
                    &&& #[trigger] v.entries[i] matches Ok(name)
                    &&& is_old(name@, keep)
                    &&& clean_action(v) == delete_subvolume(join(dir, name@))
                    &&& join(dir, name@) != join(dir, keep)
                }
        }),
{
    let v = clean_run(fresh_clean_up(dir, keep), told);
    let i = v.stage->Delete_0 as int;
    clean_run_facts(dir, keep, told);
    let name = v.entries[i]->Ok_0@;
    reveal_strlit("full_");
    reveal_strlit("incr_");
    assert(name[0] == 'f' || name[0] == 'i') by {
        assert(FULL_PREFIX@.is_prefix_of(name) ==> name[0] == name.subrange(0, 5)[0]);
        assert(INCR_PREFIX@.is_prefix_of(name) ==> name[0] == name.subrange(0, 5)[0]);
    }
    assert(!is_absolute(name));
    if join(dir, name) == join(dir, keep) {
        join_is_injective_in_name(dir, name, keep);
    }
}

/// Whether the `j`th reply is the success of deleting the entry at position `i`.
pub open spec fn entry_deleted(v: CleanView, told: Seq<Reply>, i: int, j: int) -> bool {
    &&& 0 <= j < told.len()
    &&& clean_run(v, told.take(j)).stage matches CleanStage::Delete(k)
    &&& k == i
    &&& told[j] matches Reply::Ran(r)
    &&& r is Ok
}

/// Whether the entry at position `i` is either passed over or deleted.
pub open spec fn entry_settled(v: CleanView, told: Seq<Reply>, i: int) -> bool {
    let end = clean_run(v, told);
    is_skipped(end.entries[i], v.keep) || exists|j: int| #[trigger] entry_deleted(v, told, i, j)
}

/// How many entries a clean-up has dealt with.
pub open spec fn clean_progress(v: CleanView) -> int {
    match v.stage {
        CleanStage::List => 0,
        CleanStage::Delete(i) => i as int,
        CleanStage::Done => v.entries.len() as int,
    }
}

/// The success of a clean-up means that every listed snapshot but the one that is
/// to be kept has been deleted.
pub proof fn clean_up_deletes_every_old_snapshot(dir: Seq<char>, keep: Seq<char>, told: Seq<Reply>, i: int)
    requires
        ({
            let v = clean_run(fresh_clean_up(dir, keep), told);
            v.stage == CleanStage::Done && v.failure is None && 0 <= i < v.entries.len()
        }),
    ensures
        ({
            let v = clean_run(fresh_clean_up(dir, keep), told);
            &&& v.entries[i] matches Ok(name)
            &&& is_old(name@, keep) ==> exists|j: int| #[trigger]
                entry_deleted(fresh_clean_up(dir, keep), told, i, j)
        }),
{
    clean_up_settles(dir, keep, told, i);
    let start = fresh_clean_up(dir, keep);
    let v = clean_run(start, told);
    if !is_skipped(v.entries[i], keep) {
        let j = choose|j: int| #[trigger] entry_deleted(start, told, i, j);
        clean_run_facts(dir, keep, told.take(j));
        clean_entries_stay(dir, keep, told, j);
    }
}

/// Whether the `j`th reply is the success of `btrfs subvolume delete` on `name` in
/// `dir`.
pub open spec fn snapshot_deleted(v: CleanView, told: Seq<Reply>, dir: Seq<char>, name: Seq<char>, j: int) -> bool {
    &&& 0 <= j < told.len()
    &&& clean_action(clean_run(v, told.take(j))) == ActionView::Run(
        CommandView { program: "btrfs"@, args: seq!["subvolume"@, "delete"@, join(dir, name)], env: seq![] },
    )
    &&& told[j] matches Reply::Ran(r)
    &&& r is Ok
}

/// Whether the `k`th reply is the list of the snapshots directory.
pub open spec fn snapshots_listed(v: CleanView, told: Seq<Reply>, list: Vec<Entry>, k: int) -> bool {
    &&& 0 <= k < told.len()
    &&& clean_action(clean_run(v, told.take(k))) == (ActionView::ListDir { path: v.dir })
    &&& told[k] == Reply::Listed(Ok(list))
}

/// The success of a clean-up means that every listed entry could be read, and that
/// each one whose name begins with `full_` or `incr_` and is not the name that is to
/// be kept has been deleted, whatever else its name says.
pub proof fn clean_up_leaves_no_other_backup(
    dir: Seq<char>,
    keep: Seq<char>,
    told: Seq<Reply>,
    list: Vec<Entry>,
    k: int,
    i: int,
)
    requires
        clean_run(fresh_clean_up(dir, keep), told).stage == CleanStage::Done,
        clean_run(fresh_clean_up(dir, keep), told).failure is None,
        snapshots_listed(fresh_clean_up(dir, keep), told, list, k),
        0 <= i < list@.len(),
    ensures
        list@[i] matches Ok(name) && ({
            &&& name@ != keep
            &&& "full_"@.is_prefix_of(name@) || "incr_"@.is_prefix_of(name@)
        } ==> exists|j: int| #[trigger] snapshot_deleted(fresh_clean_up(dir, keep), told, dir, name@, j)),
{
    let start = fresh_clean_up(dir, keep);
    let v = clean_run(start, told);
    let at = clean_run(start, told.take(k));
    let after = clean_run(start, told.take(k + 1));
    clean_run_facts(dir, keep, told.take(k));
    assert(told.take(k + 1).drop_last() =~= told.take(k));
    assert(told.take(k + 1).last() == told[k]);
    assert(list.len() == list@.len());
    assert(after == clean_next(at, told[k]));
    assert(at.stage is List);
    assert(after.entries == list@);
    next_old_bounds(list@, keep, 0);
    assert(!(after.stage is List));
    clean_entries_stay(dir, keep, told, k + 1);
    assert(v.entries == list@);
    clean_up_deletes_every_old_snapshot(dir, keep, told, i);
    let name = list@[i]->Ok_0@;
    if name != keep && ("full_"@.is_prefix_of(name) || "incr_"@.is_prefix_of(name)) {
        assert(is_old(name, keep));
        let j = choose|j: int| #[trigger] entry_deleted(start, told, i, j);
        clean_run_facts(dir, keep, told.take(j));
        clean_entries_stay(dir, keep, told, j);
        assert(snapshot_deleted(start, told, dir, name, j));
    }
}

/// A clean-up does not succeed before it has listed the snapshots directory.
pub proof fn clean_up_lists_the_snapshots(dir: Seq<char>, keep: Seq<char>, told: Seq<Reply>)
    requires
        clean_run(fresh_clean_up(dir, keep), told).stage !is List,
        clean_run(fresh_clean_up(dir, keep), told).failure is None,
    ensures
        exists|list: Vec<Entry>, k: int| #[trigger] snapshots_listed(fresh_clean_up(dir, keep), told, list, k),
    decreases told.len(),
{
    let start = fresh_clean_up(dir, keep);
    if told.len() > 0 {
        let earlier = told.drop_last();
        let w = clean_run(start, earlier);
        let n = told.len() - 1;
        assert(told.take(n) =~= earlier);
        clean_run_facts(dir, keep, earlier);
        if w.stage is List {
            let list = told.last()->Listed_0->Ok_0;
            assert(snapshots_listed(start, told, list, n));
        } else {
            clean_up_lists_the_snapshots(dir, keep, earlier);
            let (list, k) = choose|list: Vec<Entry>, k: int| #[trigger] snapshots_listed(start, earlier, list, k);
            assert(earlier.take(k) =~= told.take(k));
            assert(snapshots_listed(start, told, list, k));
        }
    }
}

/// A clean-up runs nothing but `btrfs subvolume delete` on a listed entry whose name
/// begins with `full_` or `incr_` and is not the name that is to be kept.
pub proof fn clean_up_deletes_no_other_entry(dir: Seq<char>, keep: Seq<char>, told: Seq<Reply>)
    requires
        clean_action(clean_run(fresh_clean_up(dir, keep), told)) is Run,
    ensures
        ({
            let v = clean_run(fresh_clean_up(dir, keep), told);
            exists|i: int|
                {
                    &&& 0 <= i < v.entries.len()
                    &&& #[trigger] v.entries[i] matches Ok(name)
                    &&& name@ != keep
                    &&& "full_"@.is_prefix_of(name@) || "incr_"@.is_prefix_of(name@)
                    &&& clean_action(v) == ActionView::Run(
                        CommandView {
                            program: "btrfs"@,
                            args: seq!["subvolume"@, "delete"@, join(dir, name@)],
                            env: seq![],
                        },
                    )
                }
        }),
{
    let v = clean_run(fresh_clean_up(dir, keep), told);
    clean_run_facts(dir, keep, told);
    let i = v.stage->Delete_0 as int;
    assert(v.entries[i] is Ok);
}

/// The entries do not change once they are listed.
proof fn clean_entries_stay(dir: Seq<char>, keep: Seq<char>, told: Seq<Reply>, j: int)
    requires
        0 <= j <= told.len(),
        clean_run(fresh_clean_up(dir, keep), told.take(j)).stage !is List,
    ensures
        clean_run(fresh_clean_up(dir, keep), told).entries == clean_run(
            fresh_clean_up(dir, keep),
            told.take(j),
        ).entries,
        clean_run(fresh_clean_up(dir, keep), told).stage !is List,
    decreases told.len(),
{
    if j < told.len() {
        assert(told.drop_last().take(j) =~= told.take(j));
        clean_entries_stay(dir, keep, told.drop_last(), j);
    } else {
        assert(told.take(j) =~= told);
    }
}

proof fn clean_up_settles(dir: Seq<char>, keep: Seq<char>, told: Seq<Reply>, i: int)
    requires
        clean_run(fresh_clean_up(dir, keep), told).failure is None,
        0 <= i < clean_progress(clean_run(fresh_clean_up(dir, keep), told)),
    ensures
        entry_settled(fresh_clean_up(dir, keep), told, i),
    decreases told.len(),
{
    let start = fresh_clean_up(dir, keep);
    let v = clean_run(start, told);
    if told.len() > 0 {
        let earlier = told.drop_last();
        let w = clean_run(start, earlier);
        let n = told.len() - 1;
        assert(told.take(n) =~= earlier);
        clean_run_facts(dir, keep, earlier);
        clean_run_facts(dir, keep, told);
        if v == w {
            clean_up_settles(dir, keep, earlier, i);
            if !is_skipped(w.entries[i], keep) {
                let j = choose|j: int| #[trigger] entry_deleted(start, earlier, i, j);
                assert(earlier.take(j) =~= told.take(j));
                assert(entry_deleted(start, told, i, j));
            }
        } else if w.stage == CleanStage::List {
            next_old_bounds(v.entries, keep, 0);
            skipped_before(v.entries, keep, 0, i);
        } else {
            let at = w.stage->Delete_0 as int;
            if i < at {
                clean_up_settles(dir, keep, earlier, i);
                if !is_skipped(w.entries[i], keep) {
                    let j = choose|j: int| #[trigger] entry_deleted(start, earlier, i, j);
                    assert(earlier.take(j) =~= told.take(j));
                    assert(entry_deleted(start, told, i, j));
                }
            } else if i == at {
                assert(entry_deleted(start, told, i, n));
            } else {
                next_old_bounds(v.entries, keep, at + 1);
                skipped_before(v.entries, keep, at + 1, i);
            }
        }
    }
}

/// Everything before the next entry that is not passed over is passed over.
proof fn skipped_before(entries: Seq<Entry>, keep: Seq<char>, from: int, i: int)
    requires
        0 <= from <= i < next_old(entries, keep, from),
        i < entries.len(),
    ensures
        is_skipped(entries[i], keep),
    decreases i - from,
{
    if from < i {
        skipped_before(entries, keep, from + 1, i);
    }
}

// ---------------------------------------------------------------------------
// Full backups
// ---------------------------------------------------------------------------

/// A full backup after it has been told `told`.
pub open spec fn full_run(v: FullView, told: Seq<Told>) -> FullView
    decreases told.len(),
{
    if told.len() == 0 {
        v
    } else {
        full_next(full_run(v, told.drop_last()), told.last().0, told.last().1)
    }
}

/// Whether the `k`th reply ended the stage at position `rank` in success.
pub open spec fn full_did(v: FullView, told: Seq<Told>, rank: int, k: int) -> bool {
    let before = full_run(v, told.take(k));
    let after = full_run(v, told.take(k + 1));
    &&& 0 <= k < told.len()
    &&& before.stage.rank() == rank
    &&& after.stage.rank() > rank
    &&& after.failure is None
}

proof fn full_run_well_formed(config: Config, now: Reading, told: Seq<Told>)
    ensures
        full_run(full_start(config, now), told).well_formed(),
        full_run(full_start(config, now), told).config == config,
    decreases told.len(),
{
    if told.len() > 0 {
        let w = full_run(full_start(config, now), told.drop_last());
        full_run_well_formed(config, now, told.drop_last());
        full_next_keeps_well_formed(w, told.last().0, told.last().1);
    }
}

/// A full backup that has not failed has done every step before the one that it
/// is about, in order, and each of them succeeded. Only the removal of a symlink
/// and of a base snapshot that are not there are left out.
///
/// So the snapshot is on Disk B under its name before anything old is deleted,
/// the upload has succeeded before the time of the backup is recorded, and a
/// backup that is done has done everything, the idle state last.
pub proof fn full_backup_goes_step_by_step(config: Config, now: Reading, told: Seq<Told>, rank: int)
    requires
        full_run(full_start(config, now), told).failure is None,
        0 <= rank < full_run(full_start(config, now), told).stage.rank(),
        rank != FullStage::RemoveLink.rank(),
        rank != FullStage::DeleteBase.rank(),
    ensures
        exists|k: int| full_did(full_start(config, now), told, rank, k),
    decreases told.len(),
{
    let start = full_start(config, now);
    if told.len() > 0 {
        let earlier = told.drop_last();
        let w = full_run(start, earlier);
        let n = told.len() - 1;
        full_run_well_formed(config, now, earlier);
        assert(told.take(n) =~= earlier);
        assert(told.take(n + 1) =~= told);
        if rank < w.stage.rank() {
            full_backup_goes_step_by_step(config, now, earlier, rank);
            let k = choose|k: int| full_did(start, earlier, rank, k);
            assert(earlier.take(k) =~= told.take(k));
            assert(earlier.take(k + 1) =~= told.take(k + 1));
            assert(full_did(start, told, rank, k));
        } else {
            assert(full_did(start, told, rank, n));
        }
    }
}

/// The steps of a full backup are done in order.
pub proof fn full_backup_steps_are_ordered(
    config: Config,
    now: Reading,
    told: Seq<Told>,
    first: int,
    j: int,
    second: int,
    k: int,
)
    requires
        full_did(full_start(config, now), told, first, j),
        full_did(full_start(config, now), told, second, k),
        first < second,
    ensures
        j < k,
{
    if k < j {
        full_rank_grows(config, now, told, k + 1, j);
    }
}

proof fn full_rank_grows(config: Config, now: Reading, told: Seq<Told>, a: int, b: int)
    requires
        0 <= a <= b <= told.len(),
    ensures
        full_run(full_start(config, now), told.take(a)).stage.rank() <= full_run(
            full_start(config, now),
            told.take(b),
        ).stage.rank(),
    decreases b - a,
{
    if a < b {
        full_rank_grows(config, now, told, a, b - 1);
        full_run_well_formed(config, now, told.take(b - 1));
        assert(told.take(b).drop_last() =~= told.take(b - 1));
    }
}

/// Until a full backup has been marked as in progress it asks for nothing else.
pub proof fn full_backup_is_marked_first(config: Config, now: Reading, told: Seq<Told>)
    ensures
        ({
            let action = full_action(full_run(full_start(config, now), told));
            ||| action == ActionView::Stop
            ||| exists|ts: u64|
                action == #[trigger] state_action(config.state.state_dir@, State::InProgress(Operation::Full), ts)
            ||| exists|k: int| full_did(full_start(config, now), told, 0, k)
        }),
{
    let v = full_run(full_start(config, now), told);
    full_run_well_formed(config, now, told);
    if v.failure is None && v.stage.rank() > 0 {
        full_backup_goes_step_by_step(config, now, told, 0);
    }
}

/// Nothing is asked for after a full backup has failed.
pub proof fn failed_full_backup_stops(config: Config, now: Reading, told: Seq<Told>, more: Seq<Told>)
    requires
        full_run(full_start(config, now), told).failure is Some,
    ensures
        full_run(full_run(full_start(config, now), told), more) == full_run(full_start(config, now), told),
        full_action(full_run(full_start(config, now), told)) == ActionView::Stop,
    decreases more.len(),
{
    full_run_well_formed(config, now, told);
    if more.len() > 0 {
        failed_full_backup_stops(config, now, told, more.drop_last());
    }
}

/// What the upload of a full backup is told.
pub open spec fn times(told: Seq<Told>) -> Seq<TimedReply> {
    told.map_values(|t: Told| (t.0, t.1.now))
}

/// The upload of a full backup is an upload of the new snapshot from its first
/// step on, and is told what the backup is told.
pub proof fn full_backup_uploads_its_snapshot(config: Config, now: Reading, told: Seq<Told>)
    requires
        full_run(full_start(config, now), told).stage == FullStage::Upload,
    ensures
        ({
            let v = full_run(full_start(config, now), told);
            exists|j: int|
                0 <= j <= told.len() && v.upload == Some(
                    s3_run(fresh_upload(config, v.name), times(#[trigger] told.skip(j))),
                )
        }),
    decreases told.len(),
{
    let start = full_start(config, now);
    let v = full_run(start, told);
    let earlier = told.drop_last();
    let w = full_run(start, earlier);
    full_run_well_formed(config, now, earlier);
    if w.stage == FullStage::Upload {
        full_backup_uploads_its_snapshot(config, now, earlier);
        let j = choose|j: int|
            0 <= j <= earlier.len() && w.upload == Some(
                s3_run(fresh_upload(config, w.name), times(#[trigger] earlier.skip(j))),
            );
        let t = times(told.skip(j));
        assert(t.drop_last() =~= times(earlier.skip(j)));
        assert(t.last() == (told.last().0, told.last().1.now));
        assert(v.upload == Some(s3_run(fresh_upload(config, v.name), times(told.skip(j)))));
    } else {
        assert(w.stage == FullStage::RotateBase);
        let t = times(told.skip(told.len() as int));
        assert(t.len() == 0);
        assert(v.upload == Some(s3_run(fresh_upload(config, v.name), times(told.skip(told.len() as int)))));
    }
}

/// What the clean-up of a full backup is told.
pub open spec fn replies(told: Seq<Told>) -> Seq<Reply> {
    told.map_values(|t: Told| t.0)
}

/// The clean-up of a full backup is one of the snapshots directory on Disk B that
/// keeps the new snapshot, from its first step on.
pub proof fn full_backup_keeps_its_snapshot(config: Config, now: Reading, told: Seq<Told>)
    requires
        full_run(full_start(config, now), told).stage == FullStage::Clean,
    ensures
        ({
            let v = full_run(full_start(config, now), told);
            exists|j: int|
                0 <= j <= told.len() && v.clean == Some(
                    clean_run(fresh_clean_up(v.snaps_dir(), v.name), replies(#[trigger] told.skip(j))),
                )
        }),
    decreases told.len(),
{
    let start = full_start(config, now);
    let v = full_run(start, told);
    let earlier = told.drop_last();
    let w = full_run(start, earlier);
    full_run_well_formed(config, now, earlier);
    if w.stage == FullStage::Clean {
        full_backup_keeps_its_snapshot(config, now, earlier);
        let j = choose|j: int|
            0 <= j <= earlier.len() && w.clean == Some(
                clean_run(fresh_clean_up(w.snaps_dir(), w.name), replies(#[trigger] earlier.skip(j))),
            );
        let t = replies(told.skip(j));
        assert(t.drop_last() =~= replies(earlier.skip(j)));
        assert(t.last() == told.last().0);
        assert(v.clean == Some(clean_run(fresh_clean_up(v.snaps_dir(), v.name), replies(told.skip(j)))));
    } else {
        assert(w.stage == FullStage::MakeLink);
        let t = replies(told.skip(told.len() as int));
        assert(t.len() == 0);
        assert(v.clean == Some(
            clean_run(fresh_clean_up(v.snaps_dir(), v.name), replies(told.skip(told.len() as int))),
        ));
    }
}

/// No state but the idle one, and no timestamp, is written as the idle state.
proof fn idle_is_written_as_nothing_else(state: State, ts: u64, other: u64)
    ensures
        state != State::Idle ==> state.file_text(ts) != State::Idle.file_text(other),
        decimal(ts as nat) != State::Idle.file_text(other),
{
    reveal_strlit("idle::");
    reveal_strlit("in_progress:");
    decimal_denotes(ts as nat);
    let idle = State::Idle.file_text(other);
    assert(idle[0] == 'i' && idle[1] == 'd');
    if state != State::Idle {
        assert(state.file_text(ts)[1] == 'n');
    }
    assert(is_digit(decimal(ts as nat)[0]));
}

/// A full backup asks for the idle state only when it has not failed, and only as
/// the last step of its upload or as its own last step.
pub proof fn full_backup_marks_idle_last(config: Config, now: Reading, told: Seq<Told>, ts: u64)
    requires
        full_action(full_run(full_start(config, now), told)) == state_action(
            config.state.state_dir@,
            State::Idle,
            ts,
        ),
    ensures
        ({
            let v = full_run(full_start(config, now), told);
            &&& v.failure is None
            &&& v.stage is MarkIdle || (v.stage is Upload && v.upload->Some_0.stage is MarkIdle)
        }),
{
    let v = full_run(full_start(config, now), told);
    full_run_well_formed(config, now, told);
    match v.stage {
        FullStage::MarkFull(t) => {
            idle_is_written_as_nothing_else(State::InProgress(Operation::Full), t, ts);
        },
        FullStage::RecordFull(t) => {
            idle_is_written_as_nothing_else(State::Idle, t, ts);
        },
        FullStage::Upload => {
            if let S3Stage::MarkUpload(t) = v.upload->Some_0.stage {
                idle_is_written_as_nothing_else(State::InProgress(Operation::S3Upload), t, ts);
            }
        },
        _ => {},
    }
}

/// Whether the `k`th reply ended the upload of a full backup in success.
pub open spec fn upload_succeeded(v: FullView, told: Seq<Told>, k: int) -> bool {
    &&& 0 <= k < told.len()
    &&& full_run(v, told.take(k)).upload matches Some(u)
    &&& s3_next(u, told[k].0, told[k].1.now).stage == S3Stage::Done
    &&& s3_next(u, told[k].0, told[k].1.now).failure is None
}

/// The time of a full backup is recorded, and a full backup succeeds, only after
/// its upload has succeeded.
pub proof fn full_backup_is_recorded_after_its_upload(config: Config, now: Reading, told: Seq<Told>)
    requires
        ({
            let v = full_run(full_start(config, now), told);
            v.failure is None && (v.stage is RecordFull || v.stage is MarkIdle || v.stage is Done)
        }),
    ensures
        exists|k: int| upload_succeeded(full_start(config, now), told, k),
{
    let start = full_start(config, now);
    let rank = FullStage::Upload.rank();
    full_backup_goes_step_by_step(config, now, told, rank);
    let k = choose|k: int| full_did(start, told, rank, k);
    full_run_well_formed(config, now, told.take(k));
    assert(told.take(k + 1).drop_last() =~= told.take(k));
    assert(upload_succeeded(start, told, k));
}

// ---------------------------------------------------------------------------
// Incremental backups
// ---------------------------------------------------------------------------

/// An incremental backup after it has been told `told`.
pub open spec fn incr_run(v: IncrView, told: Seq<TimedReply>) -> IncrView
    decreases told.len(),
{
    if told.len() == 0 {
        v
    } else {
        incr_next(incr_run(v, told.drop_last()), told.last().0, told.last().1)
    }
}

/// The position of a stage in an incremental backup; the clean-up of a failed one
/// has none.
pub open spec fn incr_rank(stage: IncrStage) -> int {
    match stage {
        IncrStage::MarkIncremental(_) => 0,
        IncrStage::Snapshot => 1,
        IncrStage::ProbeBase => 2,
        IncrStage::Send => 3,
        IncrStage::RenameReceived => 4,
        IncrStage::DeleteBase => 5,
        IncrStage::RotateBase => 6,
        IncrStage::RecordIncremental(_) => 7,
        IncrStage::MarkIdle(_) => 8,
        IncrStage::Done => 9,
        IncrStage::CleanUp => -1,
    }
}

/// Whether the `k`th reply ended the stage at position `rank` in success.
pub open spec fn incr_did(v: IncrView, told: Seq<TimedReply>, rank: int, k: int) -> bool {
    let before = incr_run(v, told.take(k));
    let after = incr_run(v, told.take(k + 1));
    &&& 0 <= k < told.len()
    &&& incr_rank(before.stage) == rank
    &&& incr_rank(after.stage) > rank
    &&& after.failure is None
}

proof fn incr_run_facts(config: Config, clock: Clock, told: Seq<TimedReply>)
    ensures
        ({
            let v = incr_run(incr_start(config, clock), told);
            &&& v.config == config
            &&& v.stamp == clock.stamp
            &&& v.failure is Some ==> v.stage == IncrStage::CleanUp || v.stage == IncrStage::Done
            &&& v.stage == IncrStage::CleanUp ==> v.failure is Some
            &&& v.failure is None && incr_rank(v.stage) >= 3 ==> v.name == INCR_PREFIX@ + clock.stamp@
        }),
    decreases told.len(),
{
    if told.len() > 0 {
        incr_run_facts(config, clock, told.drop_last());
    }
}

/// An incremental backup that has not failed has done every step before the one
/// that it is about, in order, and each of them succeeded.
///
/// So the new snapshot is on Disk B under its name before the old base snapshot
/// is deleted, and a backup that is done has made the new snapshot the base and
/// has recorded the time, the idle state last.
pub proof fn incremental_backup_goes_step_by_step(config: Config, clock: Clock, told: Seq<TimedReply>, rank: int)
    requires
        incr_run(incr_start(config, clock), told).failure is None,
        0 <= rank < incr_rank(incr_run(incr_start(config, clock), told).stage),
    ensures
        exists|k: int| incr_did(incr_start(config, clock), told, rank, k),
    decreases told.len(),
{
    let start = incr_start(config, clock);
    if told.len() > 0 {
        let earlier = told.drop_last();
        let w = incr_run(start, earlier);
        let n = told.len() - 1;
        incr_run_facts(config, clock, earlier);
        assert(told.take(n) =~= earlier);
        assert(told.take(n + 1) =~= told);
        if rank < incr_rank(w.stage) {
            incremental_backup_goes_step_by_step(config, clock, earlier, rank);
            let k = choose|k: int| incr_did(start, earlier, rank, k);
            assert(earlier.take(k) =~= told.take(k));
            assert(earlier.take(k + 1) =~= told.take(k + 1));
            assert(incr_did(start, told, rank, k));
        } else {
            assert(incr_did(start, told, rank, n));
        }
    }
}

/// The steps of an incremental backup are done in order.
pub proof fn incremental_backup_steps_are_ordered(
    config: Config,
    clock: Clock,
    told: Seq<TimedReply>,
    first: int,
    j: int,
    second: int,
    k: int,
)
    requires
        incr_did(incr_start(config, clock), told, first, j),
        incr_did(incr_start(config, clock), told, second, k),
        first < second,
    ensures
        j < k,
{
    if k < j {
        incr_run_facts(config, clock, told.take(j));
        assert(told.take(j + 1).drop_last() =~= told.take(j));
        incr_rank_grows(config, clock, told, k + 1, j);
    }
}

proof fn incr_rank_grows(config: Config, clock: Clock, told: Seq<TimedReply>, a: int, b: int)
    requires
        0 <= a <= b <= told.len(),
        incr_run(incr_start(config, clock), told.take(b)).failure is None,
    ensures
        incr_rank(incr_run(incr_start(config, clock), told.take(a)).stage) <= incr_rank(
            incr_run(incr_start(config, clock), told.take(b)).stage,
        ),
    decreases b - a,
{
    if a < b {
        assert(told.take(b).drop_last() =~= told.take(b - 1));
        incr_run_facts(config, clock, told.take(b - 1));
        incr_rank_grows(config, clock, told, a, b - 1);
    }
}

/// Until an incremental backup has been marked as in progress it asks for nothing
/// else.
pub proof fn incremental_backup_is_marked_first(config: Config, clock: Clock, told: Seq<TimedReply>)
    ensures
        ({
            let action = incr_action(incr_run(incr_start(config, clock), told));
            ||| action == ActionView::Stop
            ||| exists|ts: u64|
                action == #[trigger] state_action(
                    config.state.state_dir@,
                    State::InProgress(Operation::Incremental),
                    ts,
                )
            ||| exists|k: int| incr_did(incr_start(config, clock), told, 0, k)
        }),
{
    let v = incr_run(incr_start(config, clock), told);
    incr_run_facts(config, clock, told);
    incr_marked(config, clock, told);
    if v.stage is MarkIncremental {
        let ts = v.stage->MarkIncremental_0;
        assert(incr_action(v) == state_action(
            config.state.state_dir@,
            State::InProgress(Operation::Incremental),
            ts,
        ));
    }
}

proof fn incr_marked(config: Config, clock: Clock, told: Seq<TimedReply>)
    ensures
        ({
            let v = incr_run(incr_start(config, clock), told);
            ||| v.stage is MarkIncremental
            ||| v.stage is Done
            ||| exists|k: int| incr_did(incr_start(config, clock), told, 0, k)
        }),
    decreases told.len(),
{
    let start = incr_start(config, clock);
    if told.len() > 0 {
        let earlier = told.drop_last();
        let w = incr_run(start, earlier);
        let n = told.len() - 1;
        incr_run_facts(config, clock, earlier);
        incr_marked(config, clock, earlier);
        assert(told.take(n) =~= earlier);
        assert(told.take(n + 1) =~= told);
        if w.stage is MarkIncremental {
            if incr_run(start, told).stage is Snapshot {
                assert(incr_did(start, told, 0, n));
            }
        } else if !(w.stage is Done) {
            let k = choose|k: int| incr_did(start, earlier, 0, k);
            assert(earlier.take(k) =~= told.take(k));
            assert(earlier.take(k + 1) =~= told.take(k + 1));
            assert(incr_did(start, told, 0, k));
        }
    }
}

/// The name of an incremental snapshot tells when the backup was started.
pub proof fn incremental_name_is_the_start_time(config: Config, clock: Clock, told: Seq<TimedReply>)
    requires
        incr_run(incr_start(config, clock), told).failure is None,
        incr_rank(incr_run(incr_start(config, clock), told).stage) >= incr_rank(IncrStage::Send),
    ensures
        incr_run(incr_start(config, clock), told).name == INCR_PREFIX@ + clock.stamp@,
{
    incr_run_facts(config, clock, told);
}

/// An incremental backup that has failed deletes its temporary snapshot at most;
/// it neither records a time nor marks the idle state, and the error stays what
/// it is.
pub proof fn failed_incremental_backup_only_cleans_up(
    config: Config,
    clock: Clock,
    told: Seq<TimedReply>,
    more: Seq<TimedReply>,
)
    requires
        incr_run(incr_start(config, clock), told).failure is Some,
    ensures
        ({
            let v = incr_run(incr_start(config, clock), told);
            let later = incr_run(v, more);
            &&& later.failure == v.failure
            &&& incr_action(later) == ActionView::Stop || incr_action(later) == delete_subvolume(v.snap_tmp())
        }),
    decreases more.len(),
{
    let v = incr_run(incr_start(config, clock), told);
    incr_run_facts(config, clock, told);
    incr_failure_stays(v, more);
}

proof fn incr_failure_stays(v: IncrView, more: Seq<TimedReply>)
    requires
        v.failure is Some,
        v.stage == IncrStage::CleanUp || v.stage == IncrStage::Done,
    ensures
        ({
            let later = incr_run(v, more);
            &&& later == v || later == (IncrView { stage: IncrStage::Done, ..v })
        }),
    decreases more.len(),
{
    if more.len() > 0 {
        incr_failure_stays(v, more.drop_last());
    }
}

/// An incremental backup asks for the idle state only when it has not failed, and
/// only as its last step.
pub proof fn incremental_backup_marks_idle_last(config: Config, clock: Clock, told: Seq<TimedReply>, ts: u64)
    requires
        incr_action(incr_run(incr_start(config, clock), told)) == state_action(
            config.state.state_dir@,
            State::Idle,
            ts,
        ),
    ensures
        incr_run(incr_start(config, clock), told).failure is None,
        incr_run(incr_start(config, clock), told).stage is MarkIdle,
{
    let v = incr_run(incr_start(config, clock), told);
    incr_run_facts(config, clock, told);
    match v.stage {
        IncrStage::MarkIncremental(t) => {
            idle_is_written_as_nothing_else(State::InProgress(Operation::Incremental), t, ts);
        },
        IncrStage::RecordIncremental(t) => {
            idle_is_written_as_nothing_else(State::Idle, t, ts);
        },
        _ => {},
    }
}

/// The failures of an incremental backup that leave a temporary snapshot behind.
pub open spec fn leaves_snapshot(e: BackupErrorView) -> bool {
    ||| e.context == Context::MissingBase
    ||| e.context == Context::SendIncremental
    ||| e.context == Context::Rename
    ||| e.context == Context::DeleteBase
}

/// Whether the temporary snapshot was being deleted when the `k`th reply came.
pub open spec fn cleaned_up(v: IncrView, told: Seq<TimedReply>, k: int) -> bool {
    &&& 0 <= k < told.len()
    &&& incr_action(incr_run(v, told.take(k))) == delete_subvolume(v.snap_tmp())
    &&& told[k].0 is Ran
}

/// An incremental backup that failed for want of the base snapshot, or between
/// sending the new snapshot and making it the base, has tried to delete the
/// temporary snapshot before it is over, whatever came of that.
pub proof fn failed_incremental_backup_cleans_up(config: Config, clock: Clock, told: Seq<TimedReply>)
    requires
        ({
            let v = incr_run(incr_start(config, clock), told);
            v.stage == IncrStage::Done && v.failure is Some && leaves_snapshot(v.failure->Some_0)
        }),
    ensures
        exists|k: int| cleaned_up(incr_start(config, clock), told, k),
    decreases told.len(),
{
    let start = incr_start(config, clock);
    if told.len() > 0 {
        let earlier = told.drop_last();
        let w = incr_run(start, earlier);
        let n = told.len() - 1;
        incr_run_facts(config, clock, earlier);
        assert(told.take(n) =~= earlier);
        if w.stage == IncrStage::CleanUp {
            assert(cleaned_up(start, told, n));
        } else {
            failed_incremental_backup_cleans_up(config, clock, earlier);
            let k = choose|k: int| cleaned_up(start, earlier, k);
            assert(earlier.take(k) =~= told.take(k));
            assert(cleaned_up(start, told, k));
        }
    }
}

} // verus!
