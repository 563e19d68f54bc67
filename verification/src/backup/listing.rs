//! What the listing of a bucket amounts to: the objects that it names, and those
//! that retention takes away.

use vstd::prelude::*;

use crate::backup::retention::{by_age_is_total, expired_objects_are_valid, timestamps_sort_by_time};
use crate::backup::s3::{
    by_age, excess, expired, is_object_name, line_object, line_objects, sort_keeps_length, unexpired, valid_objects,
};
use crate::durability::all_space;
use crate::order::lex_le;
use crate::text::{lines, words};
use crate::tokens::{
    ends_word, first_word_comes_first, is_gap, is_one_line, is_word, lines_are_given_back, text_of_lines,
    three_words_come_first, white_space_has_no_words,
};

verus! {

/// A line of `aws s3 ls`, taken apart.
pub enum ObjectLine {
    /// A date, a time, a size and a name, and whatever follows them.
    Object {
        lead: Seq<char>,
        date: Seq<char>,
        gap: Seq<char>,
        time: Seq<char>,
        next_gap: Seq<char>,
        size: Seq<char>,
        last_gap: Seq<char>,
        name: Seq<char>,
        rest: Seq<char>,
    },
    /// Fewer than four words.
    Short { line: Seq<char> },
}

impl ObjectLine {
    /// The line, put together.
    pub open spec fn text(self) -> Seq<char> {
        match self {
            ObjectLine::Object { lead, date, gap, time, next_gap, size, last_gap, name, rest } => lead + date + gap
                + time + next_gap + size + last_gap + name + rest,
            ObjectLine::Short { line } => line,
        }
    }

    /// Whether the words are words, the gaps between them are gaps, and it is one
    /// line.
    pub open spec fn is_valid(self) -> bool {
        &&& is_one_line(self.text())
        &&& self.text().len() == 0 || self.text().last() != '\r'
        &&& match self {
            ObjectLine::Object { lead, date, gap, time, next_gap, size, last_gap, name, rest } => {
                &&& all_space(lead)
                &&& is_word(date)
                &&& is_gap(gap)
                &&& is_word(time)
                &&& is_gap(next_gap)
                &&& is_word(size)
                &&& is_gap(last_gap)
                &&& is_word(name)
                &&& ends_word(rest)
            },
            ObjectLine::Short { line } => words(line).len() < 4,
        }
    }
}

/// The text of a list of lines.
pub open spec fn object_lines(ls: Seq<ObjectLine>) -> Seq<Seq<char>> {
    ls.map_values(|l: ObjectLine| l.text())
}

/// The name in every line that has one, in order.
pub open spec fn named(ls: Seq<ObjectLine>) -> Seq<Seq<char>>
    decreases ls.len(),
{
    if ls.len() == 0 {
        seq![]
    } else {
        match ls.last() {
            ObjectLine::Object { name, .. } => named(ls.drop_last()).push(name),
            ObjectLine::Short { .. } => named(ls.drop_last()),
        }
    }
}

/// Four words, separated by any white space: the line adds the fourth of them,
/// whatever the others are and whatever follows.
pub proof fn fourth_word_is_the_object(
    lead: Seq<char>,
    date: Seq<char>,
    gap: Seq<char>,
    time: Seq<char>,
    next_gap: Seq<char>,
    size: Seq<char>,
    last_gap: Seq<char>,
    name: Seq<char>,
    rest: Seq<char>,
)
    requires
        all_space(lead),
        is_word(date),
        is_gap(gap),
        is_word(time),
        is_gap(next_gap),
        is_word(size),
        is_gap(last_gap),
        is_word(name),
        ends_word(rest),
    ensures
        line_object(lead + date + gap + time + next_gap + size + last_gap + name + rest) == seq![name],
{
    let tail = last_gap + name + rest;
    let line = lead + date + gap + time + next_gap + size + last_gap + name + rest;
    assert(last_gap[0] == tail[0]);
    three_words_come_first(lead, date, gap, time, next_gap, size, tail);
    first_word_comes_first(last_gap, name, rest);
    assert(line =~= lead + date + gap + time + next_gap + size + tail);
    assert(words(line)[3] == name);
}

/// Parsing a listing gives the name in every line that has one, in order, whatever
/// the dates, the times and the sizes are; lines of fewer than four words give
/// nothing. The last line need not be ended.
pub proof fn objects_are_read_line_by_line(ls: Seq<ObjectLine>)
    requires
        forall|i: int| 0 <= i < ls.len() ==> (#[trigger] ls[i]).is_valid(),
    ensures
        line_objects(lines(text_of_lines(object_lines(ls), seq![]))) == named(ls),
        ls.len() > 0 ==> line_objects(
            lines(text_of_lines(object_lines(ls.drop_last()), ls.last().text())),
        ) == named(ls),
{
    let ts = object_lines(ls);
    assert forall|i: int| 0 <= i < ts.len() implies is_one_line(#[trigger] ts[i]) && (ts[i].len() == 0
        || ts[i].last() != '\r') by {
        assert(ls[i].is_valid());
    }
    lines_are_given_back(ts, seq![]);
    objects_add_up(ls);
    if ls.len() > 0 {
        let before = object_lines(ls.drop_last());
        let last = ls.last().text();
        assert(before =~= ts.drop_last());
        assert(ts[ts.len() - 1] == last);
        assert(forall|i: int| 0 <= i < before.len() ==> #[trigger] before[i] == ts[i]);
        lines_are_given_back(before, last);
        if last.len() == 0 {
            assert(line_object(last) =~= seq![]) by {
                white_space_has_no_words(last);
            }
            assert(line_objects(ts) =~= line_objects(before));
        } else {
            assert(before.push(last) =~= ts);
        }
    }
}

proof fn objects_add_up(ls: Seq<ObjectLine>)
    requires
        forall|i: int| 0 <= i < ls.len() ==> (#[trigger] ls[i]).is_valid(),
    ensures
        line_objects(object_lines(ls)) == named(ls),
    decreases ls.len(),
{
    if ls.len() > 0 {
        let before = ls.drop_last();
        let last = ls.last();
        assert(forall|i: int| 0 <= i < before.len() ==> #[trigger] before[i] == ls[i]);
        objects_add_up(before);
        assert(object_lines(ls).drop_last() =~= object_lines(before));
        assert(object_lines(ls).last() == last.text());
        assert(ls[ls.len() - 1].is_valid());
        match last {
            ObjectLine::Object { lead, date, gap, time, next_gap, size, last_gap, name, rest } => {
                fourth_word_is_the_object(lead, date, gap, time, next_gap, size, last_gap, name, rest);
                assert(named(before) + seq![name] =~= named(ls));
            },
            ObjectLine::Short { line } => {
                assert(line_object(line) =~= seq![]);
                assert(named(before) + Seq::<Seq<char>>::empty() =~= named(before));
            },
        }
    }
}

/// Whether the object `a` goes before the object `b` does: by the timestamps in
/// their names, and by the names where these are equal.
pub open spec fn goes_before(a: Seq<char>, b: Seq<char>) -> bool {
    &&& lex_le(a.subrange(5, 20), b.subrange(5, 20))
    &&& a.subrange(5, 20) == b.subrange(5, 20) ==> lex_le(a, b)
}

/// Retention on a listing: of the named objects that have an object name, as many
/// as the retention count stay, or all where there are no more. The others are
/// deleted, the oldest first, and none of them is newer than one that stays.
pub proof fn retention_keeps_the_newest_of_a_listing(ls: Seq<ObjectLine>, retention_count: usize)
    requires
        forall|i: int| 0 <= i < ls.len() ==> (#[trigger] ls[i]).is_valid(),
    ensures
        ({
            let listing = text_of_lines(object_lines(ls), seq![]);
            let all = named(ls).filter(|o: Seq<char>| is_object_name(o));
            let gone = expired(listing, retention_count);
            exists|kept: Seq<Seq<char>>|
                {
                    &&& #[trigger] (gone + kept).to_multiset() == all.to_multiset()
                    &&& kept.len() == if all.len() <= retention_count {
                        all.len()
                    } else {
                        retention_count as nat
                    }
                    &&& forall|i: int, j: int|
                        0 <= i < gone.len() && 0 <= j < kept.len() ==> goes_before(
                            #[trigger] gone[i],
                            #[trigger] kept[j],
                        )
                    &&& forall|i: int, j: int|
                        0 <= i < j < gone.len() ==> goes_before(#[trigger] gone[i], #[trigger] gone[j])
                }
        }),
{
    let listing = text_of_lines(object_lines(ls), seq![]);
    objects_are_read_line_by_line(ls);
    let all = valid_objects(listing);
    let gone = expired(listing, retention_count);
    let kept = unexpired(listing, retention_count);
    let sorted = all.sort_by(by_age());
    let n = excess(all.len(), retention_count);
    by_age_is_total();
    all.lemma_sort_by_ensures(by_age());
    sort_keeps_length(all, by_age());
    assert(gone + kept =~= sorted);
    assert forall|i: int, j: int| 0 <= i < j < sorted.len() implies goes_before(
        #[trigger] sorted[i],
        #[trigger] sorted[j],
    ) by {
        assert(by_age()(sorted[i], sorted[j]));
        sorted_is_valid(listing, i);
        sorted_is_valid(listing, j);
        age_is_by_stamp(sorted[i], sorted[j]);
    }
    assert((gone + kept).to_multiset() == all.to_multiset());
    assert forall|i: int, j: int| 0 <= i < gone.len() && 0 <= j < kept.len() implies goes_before(
        #[trigger] gone[i],
        #[trigger] kept[j],
    ) by {
        assert(goes_before(sorted[i], sorted[n + j]));
    }
    assert forall|i: int, j: int| 0 <= i < j < gone.len() implies goes_before(
        #[trigger] gone[i],
        #[trigger] gone[j],
    ) by {
        assert(goes_before(sorted[i], sorted[j]));
    }
}

/// Every object in the order of age is an object name.
proof fn sorted_is_valid(listing: Seq<char>, i: int)
    requires
        0 <= i < valid_objects(listing).sort_by(by_age()).len(),
    ensures
        is_object_name(valid_objects(listing).sort_by(by_age())[i]),
{
    let all = valid_objects(listing);
    by_age_is_total();
    sort_keeps_length(all, by_age());
    assert(expired(listing, 0)[i] == all.sort_by(by_age())[i]);
    expired_objects_are_valid(listing, 0, i);
}

proof fn age_is_by_stamp(a: Seq<char>, b: Seq<char>)
    requires
        is_object_name(a),
        is_object_name(b),
        by_age()(a, b),
    ensures
        goes_before(a, b),
{
    let x = a.subrange(5, 20);
    let y = b.subrange(5, 20);
    assert(a.take(20).skip(5) =~= x);
    assert(b.take(20).skip(5) =~= y);
    timestamps_sort_by_time(x, y);
}

} // verus!
