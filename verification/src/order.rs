//! The lexicographic order of strings, and sorting by it.

use vstd::prelude::*;
use vstd::relations::{antisymmetric, reflexive, sorted_by, strongly_connected, total_ordering, transitive};

use crate::text::{chars_of, texts};

verus! {

/// Whether `a` comes no later than `b` in lexicographic order: character by
/// character, with a proper prefix first.
pub open spec fn lex_le(a: Seq<char>, b: Seq<char>) -> bool
    decreases a.len(),
{
    if a.len() == 0 {
        true
    } else if b.len() == 0 {
        false
    } else if a[0] == b[0] {
        lex_le(a.skip(1), b.skip(1))
    } else {
        a[0] < b[0]
    }
}

/// Lexicographic order as a relation to sort by.
pub open spec fn by_name() -> spec_fn(Seq<char>, Seq<char>) -> bool {
    |a: Seq<char>, b: Seq<char>| lex_le(a, b)
}

/// Two strings that start with the same characters compare as what follows.
pub proof fn lex_le_skip(a: Seq<char>, b: Seq<char>, n: int)
    requires
        0 <= n <= a.len(),
        n <= b.len(),
        a.take(n) == b.take(n),
    ensures
        lex_le(a, b) == lex_le(a.skip(n), b.skip(n)),
    decreases n,
{
    if n == 0 {
        assert(a.skip(0) =~= a);
        assert(b.skip(0) =~= b);
    } else {
        assert(a[0] == a.take(n)[0] && b[0] == b.take(n)[0]);
        assert(a.skip(1).take(n - 1) =~= a.take(n).skip(1));
        assert(b.skip(1).take(n - 1) =~= b.take(n).skip(1));
        lex_le_skip(a.skip(1), b.skip(1), n - 1);
        assert(a.skip(1).skip(n - 1) =~= a.skip(n));
        assert(b.skip(1).skip(n - 1) =~= b.skip(n));
    }
}

/// Lexicographic order goes by the first difference: the smaller character comes
/// first, and a text comes before what continues it.
pub proof fn lex_le_is_by_the_first_difference(a: Seq<char>, b: Seq<char>)
    ensures
        lex_le(a, b) <==> (a.is_prefix_of(b) || exists|i: int|
            0 <= i < a.len() && i < b.len() && a.take(i) == b.take(i) && #[trigger] a[i] < b[i]),
    decreases a.len(),
{
    if a.len() == 0 {
        assert(a =~= b.subrange(0, 0));
    } else if b.len() > 0 {
        let x = a.skip(1);
        let y = b.skip(1);
        lex_le_is_by_the_first_difference(x, y);
        assert(a =~= seq![a[0]] + x);
        assert(b =~= seq![b[0]] + y);
        if a[0] == b[0] {
            if x.is_prefix_of(y) {
                assert(x =~= y.subrange(0, x.len() as int));
                assert forall|i: int| 0 <= i < a.len() implies a[i] == b.subrange(0, a.len() as int)[i] by {
                    if i > 0 {
                        assert(x[i - 1] == y.subrange(0, x.len() as int)[i - 1]);
                    }
                }
                assert(a =~= b.subrange(0, a.len() as int));
            } else if lex_le(x, y) {
                let i = choose|i: int|
                    0 <= i < x.len() && i < y.len() && x.take(i) == y.take(i) && #[trigger] x[i] < y[i];
                assert(a.take(i + 1) =~= seq![a[0]] + x.take(i));
                assert(b.take(i + 1) =~= seq![b[0]] + y.take(i));
                assert(a[i + 1] < b[i + 1]);
            }
            if a.is_prefix_of(b) {
                assert forall|i: int| 0 <= i < x.len() implies x[i] == y.subrange(0, x.len() as int)[i] by {
                    assert(a[i + 1] == b.subrange(0, a.len() as int)[i + 1]);
                }
                assert(x =~= y.subrange(0, x.len() as int));
            } else if exists|i: int|
                0 <= i < a.len() && i < b.len() && a.take(i) == b.take(i) && #[trigger] a[i] < b[i] {
                let i = choose|i: int|
                    0 <= i < a.len() && i < b.len() && a.take(i) == b.take(i) && #[trigger] a[i] < b[i];
                assert(x.take(i - 1) =~= a.take(i).skip(1));
                assert(y.take(i - 1) =~= b.take(i).skip(1));
                assert(x[i - 1] < y[i - 1]);
            }
        } else {
            assert(!a.is_prefix_of(b)) by {
                if a.is_prefix_of(b) {
                    assert(a[0] == b.subrange(0, a.len() as int)[0]);
                }
            }
            if a[0] < b[0] {
                assert(a.take(0) =~= b.take(0));
            }
            if exists|i: int| 0 <= i < a.len() && i < b.len() && a.take(i) == b.take(i) && #[trigger] a[i] < b[i] {
                let i = choose|i: int|
                    0 <= i < a.len() && i < b.len() && a.take(i) == b.take(i) && #[trigger] a[i] < b[i];
                if i > 0 {
                    assert(a.take(i)[0] == b.take(i)[0]);
                }
            }
        }
    }
}

proof fn lex_le_reflexive(a: Seq<char>)
    ensures
        lex_le(a, a),
    decreases a.len(),
{
    if a.len() > 0 {
        lex_le_reflexive(a.skip(1));
    }
}

proof fn lex_le_antisymmetric(a: Seq<char>, b: Seq<char>)
    requires
        lex_le(a, b),
        lex_le(b, a),
    ensures
        a == b,
    decreases a.len(),
{
    if a.len() > 0 && b.len() > 0 {
        lex_le_antisymmetric(a.skip(1), b.skip(1));
        assert(a =~= seq![a[0]] + a.skip(1));
        assert(b =~= seq![b[0]] + b.skip(1));
    } else {
        assert(a =~= b);
    }
}

proof fn lex_le_transitive(a: Seq<char>, b: Seq<char>, c: Seq<char>)
    requires
        lex_le(a, b),
        lex_le(b, c),
    ensures
        lex_le(a, c),
    decreases a.len(),
{
    if a.len() > 0 && b.len() > 0 && c.len() > 0 && a[0] == b[0] && b[0] == c[0] {
        lex_le_transitive(a.skip(1), b.skip(1), c.skip(1));
    }
}

proof fn lex_le_total(a: Seq<char>, b: Seq<char>)
    ensures
        lex_le(a, b) || lex_le(b, a),
    decreases a.len(),
{
    if a.len() > 0 && b.len() > 0 && a[0] == b[0] {
        lex_le_total(a.skip(1), b.skip(1));
    }
}

/// Lexicographic order is a total order.
pub proof fn by_name_is_total()
    ensures
        total_ordering(by_name()),
{
    let r = by_name();
    assert forall|a: Seq<char>| #[trigger] r(a, a) by {
        lex_le_reflexive(a);
    }
    assert forall|a: Seq<char>, b: Seq<char>| #[trigger] r(a, b) && #[trigger] r(b, a) implies a == b by {
        lex_le_antisymmetric(a, b);
    }
    assert forall|a: Seq<char>, b: Seq<char>, c: Seq<char>| #[trigger] r(a, b) && #[trigger] r(b, c) implies r(
        a,
        c,
    ) by {
        lex_le_transitive(a, b, c);
    }
    assert forall|a: Seq<char>, b: Seq<char>| #[trigger] r(a, b) || #[trigger] r(b, a) by {
        lex_le_total(a, b);
    }
    assert(reflexive(r));
    assert(antisymmetric(r));
    assert(transitive(r));
    assert(strongly_connected(r));
}

/// Whether `a` comes no later than `b`.
pub fn comes_first(a: &str, b: &str) -> (r: bool)
    ensures
        r == lex_le(a@, b@),
{
    let x = chars_of(a);
    let y = chars_of(b);
    let mut i: usize = 0;
    assert(x@.skip(0) =~= x@ && y@.skip(0) =~= y@);
    while i < x.len() && i < y.len()
        invariant
            i <= x@.len(),
            i <= y@.len(),
            x@ == a@,
            y@ == b@,
            lex_le(x@, y@) == lex_le(x@.skip(i as int), y@.skip(i as int)),
        decreases x@.len() - i,
    {
        if x[i] != y[i] {
            return x[i] < y[i];
        }
        assert(x@.skip(i as int).skip(1) =~= x@.skip(i + 1));
        assert(y@.skip(i as int).skip(1) =~= y@.skip(i + 1));
        i += 1;
    }
    i == x.len()
}

/// The strings of `names` in lexicographic order.
pub fn sorted_names(names: &[String]) -> (r: Vec<String>)
    ensures
        texts(r@) == texts(names@).sort_by(by_name()),
{
    let mut out: Vec<String> = Vec::new();
    let ghost given = texts(names@);
    let mut i: usize = 0;
    proof {
        by_name_is_total();
        assert(texts(out@) =~= given.take(0));
    }
    while i < names.len()
        invariant
            i <= names@.len(),
            given == texts(names@),
            total_ordering(by_name()),
            sorted_by(texts(out@), by_name()),
            texts(out@).to_multiset() == given.take(i as int).to_multiset(),
        decreases names@.len() - i,
    {
        let name = names[i].clone();
        let ghost before = texts(out@);
        let mut at: usize = 0;
        while at < out.len() && comes_first(out[at].as_str(), name.as_str())
            invariant
                at <= out@.len(),
                before == texts(out@),
                forall|k: int| 0 <= k < at ==> lex_le(#[trigger] before[k], name@),
            decreases out@.len() - at,
        {
            at += 1;
        }
        out.insert(at, name);
        let ghost after = texts(out@);
        proof {
            assert(after =~= before.insert(at as int, name@));
            to_multiset_of_insert(before, at as int, name@);
            assert(given.take(i + 1) =~= given.take(i as int).push(given[i as int]));
            assert(given[i as int] == name@);
            vstd::seq_lib::to_multiset_build(given.take(i as int), name@);
            let r = by_name();
            assert forall|p: int, q: int| 0 <= p < q < after.len() implies #[trigger] r(after[p], after[q]) by {
                if p < at && q < at {
                    assert(r(before[p], before[q]));
                } else if p < at && q == at {
                    assert(lex_le(before[p], name@));
                } else if p < at {
                    assert(r(before[p], before[q - 1]));
                } else if p == at {
                    lex_le_total(before[at as int], name@);
                    assert(r(name@, before[at as int]));
                    if q - 1 > at {
                        assert(r(before[at as int], before[q - 1]));
                        lex_le_transitive(name@, before[at as int], before[q - 1]);
                    }
                } else {
                    assert(r(before[p - 1], before[q - 1]));
                }
            }
        }
        i += 1;
    }
    proof {
        assert(given.take(i as int) =~= given);
        given.lemma_sort_by_ensures(by_name());
        vstd::seq_lib::lemma_sorted_unique(texts(out@), given.sort_by(by_name()), by_name());
    }
    out
}

proof fn to_multiset_of_insert(s: Seq<Seq<char>>, i: int, x: Seq<char>)
    requires
        0 <= i <= s.len(),
    ensures
        s.insert(i, x).to_multiset() == s.to_multiset().insert(x),
{
    broadcast use vstd::seq_lib::group_to_multiset_ensures;

}

} // verus!
