//! What splitting gives back of lines and words that were put together, and what
//! trimming leaves.

use vstd::prelude::*;

use crate::durability::{all_space, trim_end_takes, trim_start_takes};
use crate::text::{is_space, line_len, lines, strip_cr, trim, trim_start, word_len, words};

verus! {

/// The code points of the white-space characters.
pub open spec fn space_points() -> Seq<u32> {
    seq![
        0x9, 0xa, 0xb, 0xc, 0xd, 0x20, 0x85, 0xa0, 0x1680, 0x2000, 0x2001, 0x2002, 0x2003, 0x2004, 0x2005, 0x2006,
        0x2007, 0x2008, 0x2009, 0x200a, 0x2028, 0x2029, 0x202f, 0x205f, 0x3000,
    ]
}

/// White space is the 25 characters of the Unicode property `White_Space`, no more
/// and no fewer.
pub proof fn white_space_is_the_unicode_property(c: char)
    ensures
        is_space(c) <==> space_points().contains(c as u32),
{
    let all = space_points();
    assert(all.len() == 25);
    let n = c as u32;
    assert(all[0] == 0x9 && all[1] == 0xa && all[2] == 0xb && all[3] == 0xc && all[4] == 0xd && all[5] == 0x20);
    assert(all[6] == 0x85 && all[7] == 0xa0 && all[8] == 0x1680 && all[9] == 0x2000 && all[10] == 0x2001);
    assert(all[11] == 0x2002 && all[12] == 0x2003 && all[13] == 0x2004 && all[14] == 0x2005 && all[15] == 0x2006);
    assert(all[16] == 0x2007 && all[17] == 0x2008 && all[18] == 0x2009 && all[19] == 0x200a && all[20] == 0x2028);
    assert(all[21] == 0x2029 && all[22] == 0x202f && all[23] == 0x205f && all[24] == 0x3000);
    if all.contains(n) {
        let i = choose|i: int| 0 <= i < all.len() && all[i] == n;
        assert(is_space(c));
    }
}

/// Whether `w` is a word: not empty, and without white space.
pub open spec fn is_word(w: Seq<char>) -> bool {
    &&& w.len() > 0
    &&& forall|i: int| 0 <= i < w.len() ==> !is_space(#[trigger] w[i])
}

/// Whether `g` can stand between two words: not empty, and nothing but white space.
pub open spec fn is_gap(g: Seq<char>) -> bool {
    g.len() > 0 && all_space(g)
}

/// Whether `s` ends the word before it: it is empty or starts with white space.
pub open spec fn ends_word(s: Seq<char>) -> bool {
    s.len() == 0 || is_space(s[0])
}

/// The first word of a text, whatever white space stands before it, and the words
/// behind it.
pub proof fn first_word_comes_first(lead: Seq<char>, w: Seq<char>, rest: Seq<char>)
    requires
        all_space(lead),
        is_word(w),
        ends_word(rest),
    ensures
        words(lead + w + rest) == seq![w] + words(rest),
{
    let t = w + rest;
    assert(lead + w + rest =~= lead + t);
    trim_start_takes(lead, t);
    assert(t[0] == w[0]);
    assert(!is_space(t[0]));
    assert(trim_start(t) == t);
    word_ends(w, rest);
    assert(t.take(w.len() as int) =~= w);
    assert(t.skip(w.len() as int) =~= rest);
}

proof fn word_ends(w: Seq<char>, rest: Seq<char>)
    requires
        forall|i: int| 0 <= i < w.len() ==> !is_space(#[trigger] w[i]),
        ends_word(rest),
    ensures
        word_len(w + rest) == w.len(),
    decreases w.len(),
{
    let t = w + rest;
    if w.len() == 0 {
        assert(t =~= rest);
    } else {
        assert(t[0] == w[0]);
        assert(t.skip(1) =~= w.skip(1) + rest);
        assert forall|i: int| 0 <= i < w.skip(1).len() implies !is_space(#[trigger] w.skip(1)[i]) by {
            assert(!is_space(w[i + 1]));
        }
        word_ends(w.skip(1), rest);
    }
}

/// White space holds no words.
pub proof fn white_space_has_no_words(s: Seq<char>)
    requires
        all_space(s),
    ensures
        words(s) == Seq::<Seq<char>>::empty(),
{
    trim_start_takes(s, seq![]);
    assert(s + seq![] =~= s);
    assert(trim_start(s).len() == 0);
}

/// Three words, separated by any white space, are the first three of the text.
pub proof fn three_words_come_first(
    lead: Seq<char>,
    a: Seq<char>,
    g: Seq<char>,
    b: Seq<char>,
    h: Seq<char>,
    c: Seq<char>,
    rest: Seq<char>,
)
    requires
        all_space(lead),
        is_gap(g),
        is_gap(h),
        is_word(a),
        is_word(b),
        is_word(c),
        ends_word(rest),
    ensures
        words(lead + a + g + b + h + c + rest) == seq![a, b, c] + words(rest),
{
    let after_b = h + c + rest;
    let after_a = g + b + after_b;
    assert(lead + a + g + b + h + c + rest =~= lead + a + after_a);
    assert(is_space(g[0]) && is_space(h[0]));
    first_word_comes_first(lead, a, after_a);
    first_word_comes_first(g, b, after_b);
    first_word_comes_first(h, c, rest);
    assert(seq![a] + (seq![b] + (seq![c] + words(rest))) =~= seq![a, b, c] + words(rest));
}

/// Whether `s` holds no line feed.
pub open spec fn is_one_line(s: Seq<char>) -> bool {
    forall|i: int| 0 <= i < s.len() ==> #[trigger] s[i] != '\n'
}

/// The first line of a text, ended by a line feed or by a carriage return and a
/// line feed, and the lines behind it. Only one carriage return belongs to the end
/// of a line.
pub proof fn first_line_comes_first(line: Seq<char>, rest: Seq<char>)
    requires
        is_one_line(line),
    ensures
        line.len() == 0 || line.last() != '\r' ==> lines(line + seq!['\n'] + rest) == seq![line] + lines(rest),
        lines(line + seq!['\r', '\n'] + rest) == seq![line] + lines(rest),
{
    let s = line + seq!['\n'] + rest;
    line_ends(line, seq!['\n'] + rest);
    assert(s =~= line + (seq!['\n'] + rest));
    assert(s.take(line.len() as int) =~= line);
    assert(s.skip(line.len() as int + 1) =~= rest);
    let more = line.push('\r');
    let t = line + seq!['\r', '\n'] + rest;
    assert(is_one_line(more));
    line_ends(more, seq!['\n'] + rest);
    assert(t =~= more + (seq!['\n'] + rest));
    assert(t.take(more.len() as int) =~= more);
    assert(t.skip(more.len() as int + 1) =~= rest);
    assert(strip_cr(more) =~= line);
}

proof fn line_ends(line: Seq<char>, rest: Seq<char>)
    requires
        is_one_line(line),
        rest.len() == 0 || rest[0] == '\n',
    ensures
        line_len(line + rest) == line.len(),
    decreases line.len(),
{
    let t = line + rest;
    if line.len() == 0 {
        assert(t =~= rest);
    } else {
        assert(t[0] == line[0]);
        assert(t.skip(1) =~= line.skip(1) + rest);
        assert forall|i: int| 0 <= i < line.skip(1).len() implies #[trigger] line.skip(1)[i] != '\n' by {
            assert(line[i + 1] != '\n');
        }
        line_ends(line.skip(1), rest);
    }
}

/// The end of a text ends its last line too, which then keeps all its characters.
/// Nothing has no lines.
pub proof fn last_line_needs_no_end(line: Seq<char>)
    requires
        is_one_line(line),
    ensures
        lines(line) == if line.len() == 0 {
            Seq::<Seq<char>>::empty()
        } else {
            seq![line]
        },
{
    line_ends(line, seq![]);
    assert(line + seq![] =~= line);
}

/// `ls`, each with a line feed behind it, and `last` behind them.
pub open spec fn text_of_lines(ls: Seq<Seq<char>>, last: Seq<char>) -> Seq<char>
    decreases ls.len(),
{
    if ls.len() == 0 {
        last
    } else {
        ls[0] + seq!['\n'] + text_of_lines(ls.skip(1), last)
    }
}

/// Splitting a text into lines gives back the lines that it was made of.
pub proof fn lines_are_given_back(ls: Seq<Seq<char>>, last: Seq<char>)
    requires
        forall|i: int|
            0 <= i < ls.len() ==> is_one_line(#[trigger] ls[i]) && (ls[i].len() == 0 || ls[i].last() != '\r'),
        is_one_line(last),
    ensures
        lines(text_of_lines(ls, last)) == if last.len() == 0 {
            ls
        } else {
            ls.push(last)
        },
    decreases ls.len(),
{
    if ls.len() == 0 {
        last_line_needs_no_end(last);
        assert(ls =~= seq![]);
        assert(ls.push(last) =~= seq![last]);
    } else {
        let rest = ls.skip(1);
        assert forall|i: int| 0 <= i < rest.len() implies is_one_line(#[trigger] rest[i]) && (rest[i].len() == 0
            || rest[i].last() != '\r') by {
            assert(rest[i] == ls[i + 1]);
        }
        lines_are_given_back(rest, last);
        first_line_comes_first(ls[0], text_of_lines(rest, last));
        assert(seq![ls[0]] + rest =~= ls);
        assert(seq![ls[0]] + rest.push(last) =~= ls.push(last));
    }
}

/// Trimming leaves nothing of white space.
pub proof fn white_space_is_trimmed_away(s: Seq<char>)
    requires
        all_space(s),
    ensures
        trim(s) == Seq::<char>::empty(),
{
    trim_start_takes(s, seq![]);
    assert(s + seq![] =~= s);
    trim_end_takes(seq![], trim_start(s));
    assert(trim_start(s) =~= seq![]);
}

} // verus!
