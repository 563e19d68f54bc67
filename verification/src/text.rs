//! Character-level text: white space, lines and words.

use vstd::prelude::*;
use vstd::utf8::{decode_utf8, valid_utf8};

verus! {

broadcast use vstd::string::group_string_axioms;

/// `String::push`: appends one character to the end of the string.
pub assume_specification[ String::push ](s: &mut String, c: char)
    ensures
        final(s)@ == old(s)@.push(c),
;

/// `s` between double quotes, escaped as a Rust string literal.
pub uninterp spec fn debug_text(s: Seq<char>) -> Seq<char>;

/// The `Debug` formatting of `str`, which quotes and escapes. The text it yields
/// is the one that `debug_text` names.
#[verifier::external_body]
pub(crate) fn quoted(s: &str) -> (r: String)
    ensures
        r@ == debug_text(s@),
{
    format!("{s:?}")
}

/// `bytes` read as UTF-8, with a replacement character for what is malformed.
pub uninterp spec fn lossy_text(bytes: Seq<u8>) -> Seq<char>;

/// `String::from_utf8_lossy`: the text that `lossy_text` names, which for valid
/// UTF-8 is the text that the bytes encode.
#[verifier::external_body]
pub(crate) fn lossy(bytes: &[u8]) -> (r: String)
    ensures
        r@ == lossy_text(bytes@),
        valid_utf8(bytes@) ==> r@ == decode_utf8(bytes@),
{
    String::from_utf8_lossy(bytes).into_owned()
}

/// What `String::from_utf8` says is wrong with bytes that are not UTF-8.
pub uninterp spec fn utf8_fault(bytes: Seq<u8>) -> Seq<char>;

/// `String::from_utf8`: the text that the bytes encode, where they are valid
/// UTF-8, and the text of the error, which `utf8_fault` names, where they are not.
#[verifier::external_body]
pub(crate) fn strict(bytes: Vec<u8>) -> (r: Result<String, String>)
    ensures
        r is Ok <==> valid_utf8(bytes@),
        r matches Ok(s) ==> s@ == decode_utf8(bytes@),
        r matches Err(cause) ==> cause@ == utf8_fault(bytes@),
{
    String::from_utf8(bytes).map_err(|e| e.to_string())
}

/// The characters of `s`, in order.
pub fn chars_of(s: &str) -> (r: Vec<char>)
    ensures
        r@ == s@,
{
    let mut out: Vec<char> = Vec::new();
    for c in it: s.chars()
        invariant
            out@ == s@.take(it.index()),
            it.seq() == s@,
    {
        out.push(c);
        assert(s@.take(it.index() + 1) =~= s@.take(it.index()).push(s@[it.index()]));
    }
    assert(s@.take(s@.len() as int) =~= s@);
    out
}

/// The string made of `cs[from..to]`.
pub fn slice_text(cs: &Vec<char>, from: usize, to: usize) -> (r: String)
    requires
        from <= to <= cs@.len(),
    ensures
        r@ == cs@.subrange(from as int, to as int),
{
    let mut out = String::new();
    let mut i: usize = from;
    while i < to
        invariant
            from <= i <= to <= cs@.len(),
            out@ == cs@.subrange(from as int, i as int),
        decreases to - i,
    {
        out.push(cs[i]);
        assert(cs@.subrange(from as int, i + 1) =~= cs@.subrange(from as int, i as int).push(cs@[i as int]));
        i += 1;
    }
    out
}

/// Whether two strings hold the same characters.
pub fn same_text(a: &str, b: &str) -> (r: bool)
    ensures
        r == (a@ == b@),
{
    a.to_owned() == b.to_owned()
}

/// Whether `s` starts with `prefix`.
pub fn has_prefix(s: &str, prefix: &str) -> (r: bool)
    ensures
        r == prefix@.is_prefix_of(s@),
{
    let n = prefix.unicode_len();
    if s.unicode_len() < n {
        return false;
    }
    let head = s.substring_char(0, n);
    assert(head@ =~= s@.subrange(0, prefix@.len() as int));
    same_text(head, prefix)
}

/// `a` followed by `b`.
pub fn joined(a: &str, b: &str) -> (r: String)
    ensures
        r@ == a@ + b@,
{
    let mut out = a.to_owned();
    out.append(b);
    out
}

/// The Unicode `White_Space` characters.
pub open spec fn is_space(c: char) -> bool {
    ||| '\u{9}' <= c <= '\u{d}'
    ||| c == '\u{20}'
    ||| c == '\u{85}'
    ||| c == '\u{a0}'
    ||| c == '\u{1680}'
    ||| '\u{2000}' <= c <= '\u{200a}'
    ||| c == '\u{2028}'
    ||| c == '\u{2029}'
    ||| c == '\u{202f}'
    ||| c == '\u{205f}'
    ||| c == '\u{3000}'
}

/// Whether `c` is a white-space character.
pub fn is_whitespace(c: char) -> (r: bool)
    ensures
        r == is_space(c),
{
    (c >= '\u{9}' && c <= '\u{d}') || c == '\u{20}' || c == '\u{85}' || c == '\u{a0}' || c == '\u{1680}'
        || (c >= '\u{2000}' && c <= '\u{200a}') || c == '\u{2028}' || c == '\u{2029}' || c == '\u{202f}'
        || c == '\u{205f}' || c == '\u{3000}'
}

/// `s` without its leading white space.
pub open spec fn trim_start(s: Seq<char>) -> Seq<char>
    decreases s.len(),
{
    if s.len() > 0 && is_space(s[0]) {
        trim_start(s.skip(1))
    } else {
        s
    }
}

/// `s` without its trailing white space.
pub open spec fn trim_end(s: Seq<char>) -> Seq<char>
    decreases s.len(),
{
    if s.len() > 0 && is_space(s.last()) {
        trim_end(s.drop_last())
    } else {
        s
    }
}

/// `s` without leading and trailing white space.
pub open spec fn trim(s: Seq<char>) -> Seq<char> {
    trim_end(trim_start(s))
}

/// The first position at or after `from` that holds no white space, or the
/// length of `cs`.
fn skip_space(cs: &Vec<char>, from: usize) -> (r: usize)
    requires
        from <= cs@.len(),
    ensures
        from <= r <= cs@.len(),
        trim_start(cs@.skip(from as int)) == cs@.skip(r as int),
        r < cs@.len() ==> !is_space(cs@[r as int]),
{
    let mut i: usize = from;
    while i < cs.len() && is_whitespace(cs[i])
        invariant
            from <= i <= cs@.len(),
            trim_start(cs@.skip(from as int)) == trim_start(cs@.skip(i as int)),
        decreases cs@.len() - i,
    {
        assert(cs@.skip(i as int).skip(1) =~= cs@.skip(i + 1));
        i += 1;
    }
    i
}

/// Trims white space from both ends of `s`.
pub fn trimmed(s: &str) -> (r: String)
    ensures
        r@ == trim(s@),
{
    let cs = chars_of(s);
    let from = skip_space(&cs, 0);
    assert(cs@.skip(0) =~= cs@);
    let mut to: usize = cs.len();
    assert(cs@.subrange(from as int, to as int) =~= cs@.skip(from as int));
    while to > from && is_whitespace(cs[to - 1])
        invariant
            from <= to <= cs@.len(),
            trim(s@) == trim_end(cs@.subrange(from as int, to as int)),
        decreases to,
    {
        assert(cs@.subrange(from as int, to as int).drop_last() =~= cs@.subrange(from as int, to - 1));
        to -= 1;
    }
    slice_text(&cs, from, to)
}

/// `s` without one trailing carriage return.
pub open spec fn strip_cr(s: Seq<char>) -> Seq<char> {
    if s.len() > 0 && s.last() == '\r' {
        s.drop_last()
    } else {
        s
    }
}

/// The position of the first line feed in `s`, or the length of `s`.
pub open spec fn line_len(s: Seq<char>) -> nat
    decreases s.len(),
{
    if s.len() == 0 || s[0] == '\n' {
        0
    } else {
        1 + line_len(s.skip(1))
    }
}

/// The lines of `s`: a line ends with a line feed, which may follow a carriage
/// return, or with the end of the text. The terminators are not part of a line.
pub open spec fn lines(s: Seq<char>) -> Seq<Seq<char>>
    decreases s.len(),
{
    if s.len() == 0 {
        seq![]
    } else if line_len(s) < s.len() {
        seq![strip_cr(s.take(line_len(s) as int))] + lines(s.skip(line_len(s) as int + 1))
    } else {
        seq![s]
    }
}

/// How many characters `s` has before its first white space.
pub open spec fn word_len(s: Seq<char>) -> nat
    decreases s.len(),
{
    if s.len() == 0 || is_space(s[0]) {
        0
    } else {
        1 + word_len(s.skip(1))
    }
}

/// What is left after trimming is no longer than the text and starts with no
/// white space.
pub proof fn trim_start_bounds(s: Seq<char>)
    ensures
        trim_start(s).len() <= s.len(),
        trim_start(s).len() > 0 ==> !is_space(trim_start(s)[0]),
    decreases s.len(),
{
    if s.len() > 0 && is_space(s[0]) {
        trim_start_bounds(s.skip(1));
    }
}

pub proof fn word_len_bound(s: Seq<char>)
    ensures
        word_len(s) <= s.len(),
    decreases s.len(),
{
    if s.len() > 0 && !is_space(s[0]) {
        word_len_bound(s.skip(1));
    }
}

/// The words of `s`: its maximal runs of characters that are not white space.
pub open spec fn words(s: Seq<char>) -> Seq<Seq<char>>
    decreases s.len(),
{
    let t = trim_start(s);
    if t.len() == 0 {
        seq![]
    } else {
        proof {
            trim_start_bounds(s);
            word_len_bound(t);
        }
        seq![t.take(word_len(t) as int)] + words(t.skip(word_len(t) as int))
    }
}

/// The contents of a vector of strings.
pub open spec fn texts(v: Seq<String>) -> Seq<Seq<char>> {
    v.map_values(|s: String| s@)
}

pub proof fn texts_push(v: Seq<String>, s: String)
    ensures
        texts(v.push(s)) == texts(v).push(s@),
{
    assert(texts(v.push(s)) =~= texts(v).push(s@));
}

/// Splits `s` into lines.
pub fn split_lines(s: &str) -> (r: Vec<String>)
    ensures
        texts(r@) == lines(s@),
{
    let cs = chars_of(s);
    let mut out: Vec<String> = Vec::new();
    let mut start: usize = 0;
    assert(cs@.skip(0) =~= cs@);
    assert(texts(out@) + lines(cs@) =~= lines(cs@));
    while start < cs.len()
        invariant
            start <= cs@.len(),
            lines(cs@) == texts(out@) + lines(cs@.skip(start as int)),
        decreases cs@.len() - start,
    {
        let ghost rest = cs@.skip(start as int);
        let mut end: usize = start;
        while end < cs.len() && cs[end] != '\n'
            invariant
                start <= end <= cs@.len(),
                rest == cs@.skip(start as int),
                line_len(rest) == end - start + line_len(cs@.skip(end as int)),
            decreases cs@.len() - end,
        {
            assert(cs@.skip(end as int).skip(1) =~= cs@.skip(end + 1));
            end += 1;
        }
        let ghost before = texts(out@);
        if end < cs.len() {
            let stop: usize = if end > start && cs[end - 1] == '\r' { end - 1 } else { end };
            let line = slice_text(&cs, start, stop);
            assert(rest.take(end - start) =~= cs@.subrange(start as int, end as int));
            assert(end > start ==> rest.take(end - start).drop_last() =~= cs@.subrange(start as int, end - 1));
            proof { texts_push(out@, line); }
            out.push(line);
            assert(rest.skip(end - start + 1) =~= cs@.skip(end + 1));
            assert(lines(cs@) =~= before.push(line@) + lines(cs@.skip(end + 1)));
            start = end + 1;
        } else {
            let line = slice_text(&cs, start, end);
            assert(cs@.subrange(start as int, end as int) =~= rest);
            proof { texts_push(out@, line); }
            out.push(line);
            assert(lines(cs@.skip(end as int)) =~= seq![]);
            assert(lines(cs@) =~= before.push(line@) + lines(cs@.skip(end as int)));
            start = end;
        }
    }
    assert(lines(cs@.skip(start as int)) =~= seq![]);
    out
}

/// Splits `s` into words.
pub fn split_words(s: &str) -> (r: Vec<String>)
    ensures
        texts(r@) == words(s@),
{
    let cs = chars_of(s);
    let mut out: Vec<String> = Vec::new();
    let mut start: usize = skip_space(&cs, 0);
    assert(cs@.skip(0) =~= cs@);
    proof {
        lemma_words_trimmed(cs@);
    }
    assert(texts(out@) + words(cs@) =~= words(cs@));
    while start < cs.len()
        invariant
            start <= cs@.len(),
            start < cs@.len() ==> !is_space(cs@[start as int]),
            words(cs@) == texts(out@) + words(cs@.skip(start as int)),
        decreases cs@.len() - start,
    {
        let ghost rest = cs@.skip(start as int);
        let mut end: usize = start;
        while end < cs.len() && !is_whitespace(cs[end])
            invariant
                start <= end <= cs@.len(),
                start < cs@.len(),
                !is_space(cs@[start as int]),
                rest == cs@.skip(start as int),
                word_len(rest) == end - start + word_len(cs@.skip(end as int)),
            decreases cs@.len() - end,
        {
            assert(cs@.skip(end as int).skip(1) =~= cs@.skip(end + 1));
            end += 1;
        }
        let word = slice_text(&cs, start, end);
        let next = skip_space(&cs, end);
        proof {
            assert(trim_start(rest) == rest);
            assert(rest.take(end - start) =~= word@);
            assert(rest.skip(end - start) =~= cs@.skip(end as int));
            lemma_words_trimmed(cs@.skip(end as int));
            assert(words(rest) == seq![word@] + words(cs@.skip(next as int)));
            texts_push(out@, word);
            assert(texts(out@) + words(rest) =~= texts(out@).push(word@) + words(cs@.skip(next as int)));
        }
        out.push(word);
        start = next;
    }
    assert(words(cs@.skip(start as int)) =~= seq![]);
    out
}

proof fn lemma_words_trimmed(s: Seq<char>)
    ensures
        words(trim_start(s)) == words(s),
{
    trim_start_bounds(s);
    assert(trim_start(trim_start(s)) == trim_start(s));
}

} // verus!
