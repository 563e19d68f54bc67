//! What the names of snapshots and objects promise, and what retention keeps.

use vstd::prelude::*;
use vstd::relations::{antisymmetric, reflexive, strongly_connected, total_ordering, transitive};

use crate::backup::s3::{
    age_key, by_age, doomed, excess, expired, is_object_name, is_snapshot_name, line_objects, moment, retained,
    sort_keeps_length, stamp_of, unexpired, valid_objects, OBJECT_SUFFIX,
};
use crate::number::{all_digits, digits_value, is_digit};
use crate::order::{by_name, by_name_is_total, lex_le, lex_le_skip};
use crate::path::{components, names, piece_len, piece_name};
use crate::snapshot::{is_timestamp, FULL_PREFIX, INCR_PREFIX};
use crate::text::lines;

verus! {

/// The snapshot names are exactly the names that a full or an incremental backup
/// gives to its snapshot.
pub proof fn snapshot_names_are_those_of_backups(name: Seq<char>)
    ensures
        is_snapshot_name(name) <==> exists|ts: Seq<char>| #[trigger] is_timestamp(ts) && (name == FULL_PREFIX@ + ts
            || name == INCR_PREFIX@ + ts),
{
    reveal_strlit("full_");
    reveal_strlit("incr_");
    if is_snapshot_name(name) {
        assert(name =~= name.take(5) + name.skip(5));
        assert(is_timestamp(name.skip(5)));
    }
    if exists|ts: Seq<char>| #[trigger] is_timestamp(ts) && (name == FULL_PREFIX@ + ts || name == INCR_PREFIX@ + ts) {
        let ts = choose|ts: Seq<char>| #[trigger]
            is_timestamp(ts) && (name == FULL_PREFIX@ + ts || name == INCR_PREFIX@ + ts);
        assert(name.skip(5) =~= ts);
        assert(name.take(5) =~= FULL_PREFIX@ || name.take(5) =~= INCR_PREFIX@);
    }
}

/// The object names are exactly the names that snapshots are uploaded under.
pub proof fn object_names_are_those_of_snapshots(object: Seq<char>)
    ensures
        is_object_name(object) <==> exists|name: Seq<char>| #[trigger] is_snapshot_name(name) && object == name
            + OBJECT_SUFFIX@,
{
    reveal_strlit(".tar.gpg");
    if is_object_name(object) {
        assert(object =~= object.take(20) + object.skip(20));
        assert(is_snapshot_name(object.take(20)));
    }
    if exists|name: Seq<char>| #[trigger] is_snapshot_name(name) && object == name + OBJECT_SUFFIX@ {
        let name = choose|name: Seq<char>| #[trigger] is_snapshot_name(name) && object == name + OBJECT_SUFFIX@;
        assert(object.take(20) =~= name);
        assert(object.skip(20) =~= OBJECT_SUFFIX@);
    }
}

/// A snapshot name, as it is and with a slash behind it, is a path of exactly one
/// component, so that it cannot lead out of the directory that it is taken in.
pub proof fn snapshot_name_is_one_component(name: Seq<char>)
    requires
        is_snapshot_name(name),
    ensures
        components(name) == seq![name],
        components(name.push('/')) == seq![name],
        name != ".."@,
{
    reveal_strlit("full_");
    reveal_strlit("incr_");
    reveal_strlit("..");
    assert forall|i: int| 0 <= i < name.len() implies name[i] != '/' && name[i] != '.' by {
        if i < 5 {
            assert(name[i] == name.take(5)[i]);
        } else if i == 13 {
            assert(name[i] == name.skip(5)[8]);
        } else {
            assert(name[i] == name.skip(5)[i - 5]);
            assert(is_digit(name.skip(5)[i - 5]));
        }
    }
    piece_of_plain(name, seq![]);
    piece_of_plain(name, seq!['/']);
    assert(name + seq![] =~= name);
    assert(name + seq!['/'] =~= name.push('/'));
    assert(name != seq!['.']);
    assert(names(name) == piece_name(name));
    let slashed = name.push('/');
    assert(slashed.take(20) =~= name);
    assert(slashed.skip(21) =~= seq![]);
    assert(names(slashed.skip(21)) =~= seq![]) by {
        assert(piece_len(slashed.skip(21)) == 0);
    }
    assert(names(slashed) =~= seq![name]);
    assert(components(name) =~= seq![name]);
    assert(components(slashed) =~= seq![name]);
}

/// A piece without slashes ends where the next slash is.
proof fn piece_of_plain(piece: Seq<char>, rest: Seq<char>)
    requires
        forall|i: int| 0 <= i < piece.len() ==> piece[i] != '/',
        rest.len() == 0 || rest[0] == '/',
    ensures
        piece_len(piece + rest) == piece.len(),
    decreases piece.len(),
{
    if piece.len() > 0 {
        assert((piece + rest).skip(1) =~= piece.skip(1) + rest);
        piece_of_plain(piece.skip(1), rest);
    }
}

/// Deletion in the order of names takes some objects and leaves the others: none is
/// lost from sight, none is counted twice. What is left is as many as the retention
/// count allows, and nothing that is taken comes after anything that is left.
pub proof fn name_order_keeps_the_last(objects: Seq<Seq<char>>, retention_count: usize)
    ensures
        (doomed(objects, retention_count) + retained(objects, retention_count)).to_multiset()
            == objects.to_multiset(),
        retained(objects, retention_count).len() == if objects.len() <= retention_count {
            objects.len()
        } else {
            retention_count as nat
        },
        forall|i: int, j: int|
            0 <= i < doomed(objects, retention_count).len() && 0 <= j < retained(objects, retention_count).len()
                ==> lex_le(
                #[trigger] doomed(objects, retention_count)[i],
                #[trigger] retained(objects, retention_count)[j],
            ),
{
    broadcast use vstd::seq_lib::group_to_multiset_ensures;

    let sorted = objects.sort_by(by_name());
    let n = excess(objects.len(), retention_count);
    by_name_is_total();
    objects.lemma_sort_by_ensures(by_name());
    sort_keeps_length(objects, by_name());
    assert(sorted.take(n) + sorted.skip(n) =~= sorted);
    let r = by_name();
    assert forall|i: int, j: int| 0 <= i < n && 0 <= j < sorted.len() - n implies lex_le(
        #[trigger] sorted.take(n)[i],
        #[trigger] sorted.skip(n)[j],
    ) by {
        assert(r(sorted[i], sorted[n + j]));
    }
}

/// Timestamps are in lexicographic order exactly where they are in chronological
/// order.
pub proof fn timestamps_sort_by_time(a: Seq<char>, b: Seq<char>)
    requires
        is_timestamp(a),
        is_timestamp(b),
    ensures
        lex_le(a, b) <==> moment(a) <= moment(b),
{
    let x = a.take(8) + a.skip(9);
    let y = b.take(8) + b.skip(9);
    assert(all_digits(x)) by {
        assert forall|i: int| 0 <= i < x.len() implies is_digit(#[trigger] x[i]) by {
            assert(is_digit(a[if i < 8 { i } else { i + 1 }]));
        }
    }
    assert(all_digits(y)) by {
        assert forall|i: int| 0 <= i < y.len() implies is_digit(#[trigger] y[i]) by {
            assert(is_digit(b[if i < 8 { i } else { i + 1 }]));
        }
    }
    digits_sort_by_value(x, y);
    common_char_is_irrelevant(a, b, 8);
}

/// A character that two strings have at the same place does not decide which
/// comes first.
proof fn common_char_is_irrelevant(a: Seq<char>, b: Seq<char>, i: int)
    requires
        0 <= i < a.len(),
        i < b.len(),
        a[i] == b[i],
    ensures
        lex_le(a, b) == lex_le(a.take(i) + a.skip(i + 1), b.take(i) + b.skip(i + 1)),
    decreases i,
{
    let x = a.take(i) + a.skip(i + 1);
    let y = b.take(i) + b.skip(i + 1);
    if i == 0 {
        assert(x =~= a.skip(1));
        assert(y =~= b.skip(1));
    } else {
        common_char_is_irrelevant(a.skip(1), b.skip(1), i - 1);
        assert(x.skip(1) =~= a.skip(1).take(i - 1) + a.skip(1).skip(i));
        assert(y.skip(1) =~= b.skip(1).take(i - 1) + b.skip(1).skip(i));
    }
}

/// Digits of the same number are in lexicographic order exactly where their
/// values are in order.
proof fn digits_sort_by_value(a: Seq<char>, b: Seq<char>)
    requires
        a.len() == b.len(),
        all_digits(a),
        all_digits(b),
    ensures
        lex_le(a, b) <==> digits_value(a) <= digits_value(b),
        a == b <==> digits_value(a) == digits_value(b),
    decreases a.len(),
{
    if a.len() > 0 {
        let x = a.drop_last();
        let y = b.drop_last();
        assert(all_digits(x)) by {
            assert forall|i: int| 0 <= i < x.len() implies is_digit(#[trigger] x[i]) by {
                assert(is_digit(a[i]));
            }
        }
        assert(all_digits(y)) by {
            assert forall|i: int| 0 <= i < y.len() implies is_digit(#[trigger] y[i]) by {
                assert(is_digit(b[i]));
            }
        }
        digits_sort_by_value(x, y);
        last_char_decides_last(a, b);
        assert(is_digit(a.last()) && is_digit(b.last()));
        assert(a =~= x.push(a.last()));
        assert(b =~= y.push(b.last()));
    } else {
        assert(a =~= b);
    }
}

/// Of two strings of one length, the last character decides only where all
/// others are equal.
proof fn last_char_decides_last(a: Seq<char>, b: Seq<char>)
    requires
        a.len() == b.len(),
        a.len() > 0,
    ensures
        lex_le(a, b) <==> (lex_le(a.drop_last(), b.drop_last()) && (a.drop_last() == b.drop_last() ==> a.last()
            <= b.last())),
    decreases a.len(),
{
    let x = a.drop_last();
    let y = b.drop_last();
    if a.len() == 1 {
        assert(x =~= y);
        assert(lex_le(x, y));
        assert(a.skip(1).len() == 0);
        assert(lex_le(a.skip(1), b.skip(1)));
    } else {
        assert(x[0] == a[0] && y[0] == b[0]);
        assert(lex_le(x, y) == if a[0] == b[0] {
            lex_le(x.skip(1), y.skip(1))
        } else {
            a[0] < b[0]
        });
        assert(a.skip(1).last() == a.last() && b.skip(1).last() == b.last());
        assert(x.skip(1) =~= a.skip(1).drop_last());
        assert(y.skip(1) =~= b.skip(1).drop_last());
        if a[0] == b[0] {
            last_char_decides_last(a.skip(1), b.skip(1));
            if x.skip(1) == y.skip(1) {
                assert(x =~= seq![x[0]] + x.skip(1));
                assert(y =~= seq![y[0]] + y.skip(1));
                assert(x == y);
            }
        }
    }
}

/// Whether `full` is a full backup, `incr` an incremental one, and the full one
/// is the newer. The order of names puts such a pair the wrong way round.
pub open spec fn out_of_order(full: Seq<char>, incr: Seq<char>) -> bool {
    &&& full.take(5) == FULL_PREFIX@
    &&& incr.take(5) == INCR_PREFIX@
    &&& moment(stamp_of(incr)) < moment(stamp_of(full))
}

/// Sorting objects by name sorts them by age, except for a full backup that is
/// newer than an incremental one.
pub proof fn names_sort_by_age(a: Seq<char>, b: Seq<char>)
    requires
        is_object_name(a),
        is_object_name(b),
        lex_le(a, b),
    ensures
        moment(stamp_of(a)) <= moment(stamp_of(b)) || out_of_order(a, b),
{
    reveal_strlit("full_");
    reveal_strlit("incr_");
    assert(a.take(20).take(5) =~= a.take(5));
    assert(b.take(20).take(5) =~= b.take(5));
    assert(a.take(20).skip(5) =~= stamp_of(a));
    assert(b.take(20).skip(5) =~= stamp_of(b));
    if a.take(5) == b.take(5) {
        lex_le_skip(a, b, 5);
        assert(a.skip(5).skip(15) =~= a.skip(20));
        assert(b.skip(5).skip(15) =~= b.skip(20));
        assert(a.skip(5).take(15) =~= stamp_of(a));
        assert(b.skip(5).take(15) =~= stamp_of(b));
        common_suffix(stamp_of(a), stamp_of(b), a.skip(20));
        assert(a.skip(5) =~= stamp_of(a) + a.skip(20));
        assert(b.skip(5) =~= stamp_of(b) + b.skip(20));
        timestamps_sort_by_time(stamp_of(a), stamp_of(b));
    } else if a.take(5) == INCR_PREFIX@ {
        assert(a[0] == a.take(5)[0] && b[0] == b.take(5)[0]);
        assert(false);
    }
}

/// Two strings of one length compare as they do with the same suffix.
proof fn common_suffix(a: Seq<char>, b: Seq<char>, suffix: Seq<char>)
    requires
        a.len() == b.len(),
    ensures
        lex_le(a + suffix, b + suffix) ==> lex_le(a, b),
    decreases a.len(),
{
    if a.len() > 0 {
        assert((a + suffix).skip(1) =~= a.skip(1) + suffix);
        assert((b + suffix).skip(1) =~= b.skip(1) + suffix);
        common_suffix(a.skip(1), b.skip(1), suffix);
    }
}

/// Deletion in the order of names takes the oldest objects, as long as no full
/// backup is newer than an incremental one.
pub proof fn name_order_deletes_the_oldest(objects: Seq<Seq<char>>, retention_count: usize)
    requires
        forall|i: int| 0 <= i < objects.len() ==> is_object_name(#[trigger] objects[i]),
        forall|i: int, j: int|
            0 <= i < objects.len() && 0 <= j < objects.len() ==> !out_of_order(
                #[trigger] objects[i],
                #[trigger] objects[j],
            ),
    ensures
        forall|i: int, j: int|
            0 <= i < doomed(objects, retention_count).len() && 0 <= j < retained(objects, retention_count).len()
                ==> moment(stamp_of(#[trigger] doomed(objects, retention_count)[i])) <= moment(
                stamp_of(#[trigger] retained(objects, retention_count)[j]),
            ),
{
    let gone = doomed(objects, retention_count);
    let kept = retained(objects, retention_count);
    let sorted = objects.sort_by(by_name());
    by_name_is_total();
    objects.lemma_sort_by_ensures(by_name());
    name_order_keeps_the_last(objects, retention_count);
    sort_keeps_length(objects, by_name());
    assert forall|i: int, j: int| 0 <= i < gone.len() && 0 <= j < kept.len() implies moment(
        stamp_of(#[trigger] gone[i]),
    ) <= moment(stamp_of(#[trigger] kept[j])) by {
        let n = excess(objects.len(), retention_count);
        assert(gone[i] == sorted[i]);
        assert(kept[j] == sorted[n + j]);
        assert(sorted.contains(gone[i]) && sorted.contains(kept[j]));
        assert(objects.contains(gone[i]) && objects.contains(kept[j]));
        let p = choose|p: int| 0 <= p < objects.len() && objects[p] == gone[i];
        let q = choose|q: int| 0 <= q < objects.len() && objects[q] == kept[j];
        assert(!out_of_order(objects[p], objects[q]));
        names_sort_by_age(gone[i], kept[j]);
    }
}

/// Age is a total order.
pub proof fn by_age_is_total()
    ensures
        total_ordering(by_age()),
{
    let r = by_age();
    let n = by_name();
    by_name_is_total();
    assert forall|a: Seq<char>| #[trigger] r(a, a) by {
        assert(n(a, a));
    }
    assert forall|a: Seq<char>, b: Seq<char>| #[trigger] r(a, b) && #[trigger] r(b, a) implies a == b by {
        assert(n(a, b) && n(b, a));
    }
    assert forall|a: Seq<char>, b: Seq<char>, c: Seq<char>| #[trigger] r(a, b) && #[trigger] r(b, c) implies r(
        a,
        c,
    ) by {
        if n(a, b) && n(b, c) {
            assert(n(a, c));
        }
    }
    assert forall|a: Seq<char>, b: Seq<char>| #[trigger] r(a, b) || #[trigger] r(b, a) by {
        assert(n(a, b) || n(b, a));
    }
    assert(reflexive(r));
    assert(antisymmetric(r));
    assert(transitive(r));
    assert(strongly_connected(r));
}

/// The order of age keys is that of age.
proof fn age_keys_sort_by_age(a: Seq<char>, b: Seq<char>)
    requires
        is_object_name(a),
        is_object_name(b),
        by_age()(a, b),
    ensures
        lex_le(age_key(a), age_key(b)),
{
    let x = stamp_of(a);
    let y = stamp_of(b);
    assert(a.take(20).skip(5) =~= x);
    assert(b.take(20).skip(5) =~= y);
    timestamps_sort_by_time(x, y);
    timestamps_sort_by_time(y, x);
    if x == y {
        assert(age_key(a).take(15) =~= x);
        assert(age_key(b).take(15) =~= y);
        lex_le_skip(age_key(a), age_key(b), 15);
        assert(age_key(a).skip(15) =~= a);
        assert(age_key(b).skip(15) =~= b);
        assert(lex_le(a, b));
    } else {
        first_difference_decides(x, y, a, b);
    }
}

/// What follows two different strings of one length does not decide which comes
/// first.
proof fn first_difference_decides(a: Seq<char>, b: Seq<char>, s: Seq<char>, t: Seq<char>)
    requires
        a.len() == b.len(),
        a != b,
        lex_le(a, b),
    ensures
        lex_le(a + s, b + t),
    decreases a.len(),
{
    if a.len() == 0 {
        assert(a =~= b);
    } else {
        assert((a + s).skip(1) =~= a.skip(1) + s);
        assert((b + t).skip(1) =~= b.skip(1) + t);
        if a[0] == b[0] {
            assert(a.skip(1) != b.skip(1)) by {
                assert(a =~= seq![a[0]] + a.skip(1));
                assert(b =~= seq![b[0]] + b.skip(1));
            }
            first_difference_decides(a.skip(1), b.skip(1), s, t);
        }
    }
}

/// Two lists of the same objects, whatever their order, have the same keys.
proof fn same_objects_have_same_keys(
    s: Seq<Seq<char>>,
    t: Seq<Seq<char>>,
    key: spec_fn(Seq<char>) -> Seq<char>,
)
    requires
        s.to_multiset() == t.to_multiset(),
    ensures
        s.map_values(key).to_multiset() == t.map_values(key).to_multiset(),
    decreases s.len(),
{
    broadcast use vstd::seq_lib::group_to_multiset_ensures;

    assert(s.to_multiset().len() == s.len() && t.to_multiset().len() == t.len());
    if s.len() == 0 {
        assert(s.map_values(key) =~= t.map_values(key));
    } else {
        let x = s.last();
        assert(s.to_multiset().count(x) > 0) by {
            assert(s.contains(x));
        }
        assert(t.contains(x));
        let i = choose|i: int| 0 <= i < t.len() && t[i] == x;
        let fewer = s.drop_last();
        let rest = t.remove(i);
        assert(s =~= fewer.push(x));
        assert(fewer.to_multiset() =~= s.to_multiset().remove(x));
        assert(rest.to_multiset() =~= t.to_multiset().remove(x));
        same_objects_have_same_keys(fewer, rest, key);
        assert(s.map_values(key) =~= fewer.map_values(key).push(key(x)));
        assert(t.map_values(key) =~= rest.map_values(key).insert(i, key(x)));
    }
}

/// The objects of a listing that have an object name have an object name, sorted
/// or not.
proof fn sorted_objects_are_valid(listing: Seq<char>, i: int)
    requires
        0 <= i < valid_objects(listing).len(),
    ensures
        valid_objects(listing).sort_by(by_age()).len() == valid_objects(listing).len(),
        is_object_name(valid_objects(listing).sort_by(by_age())[i]),
{
    broadcast use vstd::seq_lib::group_filter_ensures;

    let objects = valid_objects(listing);
    let valid = |o: Seq<char>| is_object_name(o);
    by_age_is_total();
    objects.lemma_sort_by_ensures(by_age());
    sort_keeps_length(objects, by_age());
    let sorted = objects.sort_by(by_age());
    let o = sorted[i];
    assert(sorted.contains(o));
    assert(objects.contains(o));
    let p = choose|p: int| 0 <= p < objects.len() && objects[p] == o;
    assert(valid(line_objects(lines(listing)).filter(valid)[p]));
}

/// The objects that expire are object names.
pub proof fn expired_objects_are_valid(listing: Seq<char>, retention_count: usize, i: int)
    requires
        0 <= i < expired(listing, retention_count).len(),
    ensures
        is_object_name(expired(listing, retention_count)[i]),
{
    let objects = valid_objects(listing);
    by_age_is_total();
    sort_keeps_length(objects, by_age());
    sorted_objects_are_valid(listing, i);
}

/// The first age keys in the order of names are those of the objects that expire.
pub proof fn expired_keys(listing: Seq<char>, retention_count: usize)
    ensures
        doomed(valid_objects(listing).map_values(|o: Seq<char>| age_key(o)), retention_count) == expired(
            listing,
            retention_count,
        ).map_values(|o: Seq<char>| age_key(o)),
{
    let objects = valid_objects(listing);
    let key = |o: Seq<char>| age_key(o);
    let keys = objects.map_values(key);
    let sorted = objects.sort_by(by_age());
    let sorted_keys = sorted.map_values(key);
    let n = by_name();
    by_age_is_total();
    by_name_is_total();
    objects.lemma_sort_by_ensures(by_age());
    keys.lemma_sort_by_ensures(n);
    sort_keeps_length(objects, by_age());
    same_objects_have_same_keys(objects, sorted, key);
    assert forall|p: int, q: int| 0 <= p < q < sorted_keys.len() implies #[trigger] n(sorted_keys[p], sorted_keys[q]) by {
        assert(by_age()(sorted[p], sorted[q]));
        sorted_objects_are_valid(listing, p);
        sorted_objects_are_valid(listing, q);
        age_keys_sort_by_age(sorted[p], sorted[q]);
    }
    vstd::seq_lib::lemma_sorted_unique(sorted_keys, keys.sort_by(n), n);
    assert(doomed(keys, retention_count) =~= expired(listing, retention_count).map_values(key));
}

/// Retention deletes the oldest objects of a listing and keeps the newest: none is
/// lost from sight, none is counted twice, what remains is as many as the retention
/// count allows, and no object that is deleted is newer than one that remains.
pub proof fn retention_deletes_the_oldest(listing: Seq<char>, retention_count: usize)
    ensures
        (expired(listing, retention_count) + unexpired(listing, retention_count)).to_multiset() == valid_objects(
            listing,
        ).to_multiset(),
        unexpired(listing, retention_count).len() == if valid_objects(listing).len() <= retention_count {
            valid_objects(listing).len()
        } else {
            retention_count as nat
        },
        forall|i: int, j: int|
            0 <= i < expired(listing, retention_count).len() && 0 <= j < unexpired(listing, retention_count).len()
                ==> moment(stamp_of(#[trigger] expired(listing, retention_count)[i])) <= moment(
                stamp_of(#[trigger] unexpired(listing, retention_count)[j]),
            ),
{
    let objects = valid_objects(listing);
    let sorted = objects.sort_by(by_age());
    let n = excess(objects.len(), retention_count);
    by_age_is_total();
    objects.lemma_sort_by_ensures(by_age());
    sort_keeps_length(objects, by_age());
    assert(sorted.take(n) + sorted.skip(n) =~= sorted);
    let r = by_age();
    assert forall|i: int, j: int| 0 <= i < n && 0 <= j < sorted.len() - n implies moment(
        stamp_of(#[trigger] sorted.take(n)[i]),
    ) <= moment(stamp_of(#[trigger] sorted.skip(n)[j])) by {
        assert(r(sorted[i], sorted[n + j]));
    }
}

} // verus!
