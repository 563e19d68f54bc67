//! Unix paths as text: joining, components, and the component-wise prefix test.

use vstd::prelude::*;

use crate::text::{chars_of, joined, slice_text, texts, texts_push};

verus! {

broadcast use vstd::string::group_string_axioms;

/// Whether `p` starts at the root.
pub open spec fn is_absolute(p: Seq<char>) -> bool {
    p.len() > 0 && p[0] == '/'
}

/// `name` below `base`. An absolute `name` replaces `base`; otherwise the two
/// are separated by exactly one added slash, unless `base` is empty or already
/// ends with one.
pub open spec fn join(base: Seq<char>, name: Seq<char>) -> Seq<char> {
    if is_absolute(name) {
        name
    } else if base.len() == 0 || base.last() == '/' {
        base + name
    } else {
        base.push('/') + name
    }
}

/// The path of `name` below `base`.
pub fn joined_path(base: &str, name: &str) -> (r: String)
    ensures
        r@ == join(base@, name@),
{
    let n = name.unicode_len();
    if n > 0 && name.get_char(0) == '/' {
        return name.to_owned();
    }
    let mut out = base.to_owned();
    let b = base.unicode_len();
    if b > 0 && base.get_char(b - 1) != '/' {
        out.push('/');
    }
    out.append(name);
    out
}

/// The position of the first slash in `s`, or the length of `s`.
pub open spec fn piece_len(s: Seq<char>) -> nat
    decreases s.len(),
{
    if s.len() == 0 || s[0] == '/' {
        0
    } else {
        1 + piece_len(s.skip(1))
    }
}

/// What a piece between two slashes adds to the names of a path: nothing where
/// it is empty or a single dot.
pub open spec fn piece_name(piece: Seq<char>) -> Seq<Seq<char>> {
    if piece.len() == 0 || piece == seq!['.'] {
        seq![]
    } else {
        seq![piece]
    }
}

/// The names that a path goes through, in order.
pub open spec fn names(s: Seq<char>) -> Seq<Seq<char>>
    decreases s.len(),
{
    let n = piece_len(s) as int;
    if n < s.len() {
        piece_name(s.take(n)) + names(s.skip(n + 1))
    } else {
        piece_name(s)
    }
}

/// Where a path starts: at the root, explicitly at the current directory, or
/// neither.
pub open spec fn anchor(s: Seq<char>) -> Seq<Seq<char>> {
    if is_absolute(s) {
        seq![seq!['/']]
    } else if s.len() > 0 && s[0] == '.' && (s.len() == 1 || s[1] == '/') {
        seq![seq!['.']]
    } else {
        seq![]
    }
}

/// The components of a path: its anchor and its names. Repeated slashes,
/// trailing slashes and inner dots make no component.
pub open spec fn components(s: Seq<char>) -> Seq<Seq<char>> {
    anchor(s) + names(s)
}

/// Whether `base` is a prefix of `p`, whole components only.
pub open spec fn starts_with(p: Seq<char>, base: Seq<char>) -> bool {
    components(base).is_prefix_of(components(p))
}

/// The components of `p`.
pub fn components_of(p: &str) -> (r: Vec<String>)
    ensures
        texts(r@) == components(p@),
{
    let cs = chars_of(p);
    let mut out: Vec<String> = Vec::new();
    if cs.len() > 0 && cs[0] == '/' {
        let root = slice_text(&cs, 0, 1);
        assert(root@ =~= seq!['/']);
        out.push(root);
    } else if cs.len() > 0 && cs[0] == '.' && (cs.len() == 1 || cs[1] == '/') {
        let here = slice_text(&cs, 0, 1);
        assert(here@ =~= seq!['.']);
        out.push(here);
    }
    assert(texts(out@) =~= anchor(p@));
    let mut start: usize = 0;
    assert(cs@.skip(0) =~= cs@);
    loop
        invariant
            start <= cs@.len(),
            cs@ == p@,
            components(p@) == texts(out@) + names(cs@.skip(start as int)),
        decreases cs@.len() - start,
    {
        let ghost rest = cs@.skip(start as int);
        let mut end: usize = start;
        while end < cs.len() && cs[end] != '/'
            invariant
                start <= end <= cs@.len(),
                rest == cs@.skip(start as int),
                piece_len(rest) == end - start + piece_len(cs@.skip(end as int)),
            decreases cs@.len() - end,
        {
            assert(cs@.skip(end as int).skip(1) =~= cs@.skip(end + 1));
            end += 1;
        }
        let ghost before = texts(out@);
        let ghost piece = cs@.subrange(start as int, end as int);
        assert(piece =~= rest.take(end - start));
        if end > start && !(end == start + 1 && cs[start] == '.') {
            let name = slice_text(&cs, start, end);
            proof {
                texts_push(out@, name);
                if piece == seq!['.'] {
                    assert(piece.len() == 1 && piece[0] == '.');
                }
            }
            out.push(name);
        } else {
            assert(end > start ==> piece =~= seq!['.']);
        }
        assert(texts(out@) =~= before + piece_name(piece));
        if end < cs.len() {
            assert(rest.skip(end - start + 1) =~= cs@.skip(end + 1));
            assert(before + names(rest) =~= texts(out@) + names(cs@.skip(end + 1)));
            start = end + 1;
        } else {
            assert(piece =~= rest);
            return out;
        }
    }
}

/// Whether `base` is a prefix of `p`, whole components only.
pub fn path_starts_with(p: &str, base: &str) -> (r: bool)
    ensures
        r == starts_with(p@, base@),
{
    let whole = components_of(p);
    let part = components_of(base);
    let ghost w = components(p@);
    let ghost b = components(base@);
    if part.len() > whole.len() {
        return false;
    }
    let mut i: usize = 0;
    while i < part.len()
        invariant
            i <= part@.len() <= whole@.len(),
            w == texts(whole@),
            b == texts(part@),
            w == components(p@),
            b == components(base@),
            forall|k: int| 0 <= k < i ==> #[trigger] w[k] == b[k],
        decreases part@.len() - i,
    {
        if part[i] != whole[i] {
            assert(b[i as int] != w[i as int]);
            assert(b =~= w.subrange(0, b.len() as int) ==> b[i as int] == w.subrange(0, b.len() as int)[i as int]);
            return false;
        }
        assert(w[i as int] == b[i as int]);
        i += 1;
    }
    assert(b =~= w.subrange(0, b.len() as int));
    true
}

/// Different relative names in one directory have different paths.
pub proof fn join_is_injective_in_name(base: Seq<char>, a: Seq<char>, b: Seq<char>)
    requires
        !is_absolute(a),
        !is_absolute(b),
        join(base, a) == join(base, b),
    ensures
        a == b,
{
    let head = if base.len() == 0 || base.last() == '/' { base } else { base.push('/') };
    assert(join(base, a) == head + a);
    assert(join(base, b) == head + b);
    assert(a =~= (head + a).skip(head.len() as int));
    assert(b =~= (head + b).skip(head.len() as int));
}

/// `p` without what stands behind its last name: slashes, and dots that stand for
/// the directory before them.
pub open spec fn without_tail(p: Seq<char>) -> Seq<char>
    decreases p.len(),
{
    if p.len() > 0 && p.last() == '/' {
        without_tail(p.drop_last())
    } else if p.len() > 1 && p.last() == '.' && p[p.len() - 2] == '/' {
        without_tail(p.drop_last())
    } else {
        p
    }
}

/// Where the last piece of `p` starts: behind the last slash.
pub open spec fn piece_start(p: Seq<char>) -> nat
    decreases p.len(),
{
    if p.len() == 0 || p.last() == '/' {
        p.len()
    } else {
        piece_start(p.drop_last())
    }
}

/// The name that a path ends with. The root, the current directory and a parent
/// directory have none.
pub open spec fn file_name(p: Seq<char>) -> Option<Seq<char>> {
    let base = without_tail(p);
    let name = base.skip(piece_start(base) as int);
    if name.len() == 0 || name == seq!['.'] || name == seq!['.', '.'] {
        None
    } else {
        Some(name)
    }
}

/// The position of the last dot in `name`; 0 where there is none.
pub open spec fn last_dot(name: Seq<char>) -> nat
    decreases name.len(),
{
    if name.len() == 0 {
        0
    } else if name.last() == '.' {
        (name.len() - 1) as nat
    } else {
        last_dot(name.drop_last())
    }
}

/// The length of `name` without its extension. A leading dot starts none.
pub open spec fn stem_len(name: Seq<char>) -> nat {
    if last_dot(name) == 0 {
        name.len()
    } else {
        last_dot(name)
    }
}

/// What stands behind the last dot of the name that `p` ends with, unless that dot
/// is its first character.
pub open spec fn extension(p: Seq<char>) -> Option<Seq<char>> {
    match file_name(p) {
        Some(name) => if last_dot(name) == 0 {
            None
        } else {
            Some(name.skip(last_dot(name) as int + 1))
        },
        None => None,
    }
}

/// `p` with the extension `tmp`, in place of its own where it has one. A path
/// without a name is left as it is.
pub open spec fn tmp_sibling(p: Seq<char>) -> Seq<char> {
    let base = without_tail(p);
    match file_name(p) {
        Some(name) => base.take(base.len() - name.len() + stem_len(name)) + ".tmp"@,
        None => p,
    }
}

proof fn piece_start_bound(p: Seq<char>)
    ensures
        piece_start(p) <= p.len(),
    decreases p.len(),
{
    if p.len() > 0 && p.last() != '/' {
        piece_start_bound(p.drop_last());
    }
}

proof fn last_dot_facts(name: Seq<char>)
    ensures
        last_dot(name) <= name.len(),
        last_dot(name) > 0 ==> last_dot(name) < name.len() && name[last_dot(name) as int] == '.',
        forall|i: int| last_dot(name) < i < name.len() ==> name[i] != '.',
    decreases name.len(),
{
    if name.len() > 0 && name.last() != '.' {
        last_dot_facts(name.drop_last());
        assert forall|i: int| last_dot(name) < i < name.len() implies name[i] != '.' by {
            if i < name.len() - 1 {
                assert(name.drop_last()[i] != '.');
            }
        }
    }
}

/// The path of the file `tmp` next to `p`.
pub fn tmp_sibling_of(p: &str) -> (r: String)
    ensures
        r@ == tmp_sibling(p@),
{
    let cs = chars_of(p);
    let mut end: usize = cs.len();
    assert(cs@.take(end as int) =~= cs@);
    while end > 0 && (cs[end - 1] == '/' || (end > 1 && cs[end - 1] == '.' && cs[end - 2] == '/'))
        invariant
            end <= cs@.len(),
            without_tail(cs@) == without_tail(cs@.take(end as int)),
        decreases end,
    {
        assert(cs@.take(end as int).drop_last() =~= cs@.take(end - 1));
        end -= 1;
    }
    let ghost base = cs@.take(end as int);
    assert(without_tail(p@) == base);
    let mut start: usize = end;
    assert(base.take(end as int) =~= base);
    while start > 0 && cs[start - 1] != '/'
        invariant
            start <= end <= cs@.len(),
            base == cs@.take(end as int),
            piece_start(base) == piece_start(base.take(start as int)),
        decreases start,
    {
        assert(base.take(start as int).drop_last() =~= base.take(start - 1));
        start -= 1;
    }
    let ghost name = base.skip(start as int);
    assert(piece_start(base) == start);
    let len: usize = end - start;
    if len == 0 || (len == 1 && cs[start] == '.') || (len == 2 && cs[start] == '.' && cs[start + 1] == '.') {
        assert(len == 1 ==> name =~= seq!['.']);
        assert(len == 2 ==> name =~= seq!['.', '.']);
        return p.to_owned();
    }
    assert(name != seq!['.'] && name != seq!['.', '.']) by {
        assert(len >= 1 ==> name[0] == cs@[start as int]);
        assert(len >= 2 ==> name[1] == cs@[start + 1]);
    }
    let mut dot: usize = end;
    assert(name.take(len as int) =~= name);
    while dot > start && cs[dot - 1] != '.'
        invariant
            start <= dot <= end <= cs@.len(),
            base == cs@.take(end as int),
            name == base.skip(start as int),
            last_dot(name) == last_dot(name.take(dot - start)),
        decreases dot - start,
    {
        assert(name.take(dot - start).drop_last() =~= name.take(dot - start - 1));
        assert(name.take(dot - start).last() == cs@[dot - 1]);
        dot -= 1;
    }
    let stem_end: usize = if dot > start + 1 {
        assert(name.take(dot - start).last() == cs@[dot - 1]);
        dot - 1
    } else {
        assert(dot == start + 1 ==> name.take(1).last() == cs@[start as int]);
        end
    };
    assert(stem_end - start == stem_len(name));
    let stem = slice_text(&cs, 0, stem_end);
    assert(stem@ =~= base.take(base.len() - name.len() + stem_len(name)));
    joined(stem.as_str(), ".tmp")
}

/// The temporary sibling of a file is another file, unless the file has the
/// extension `tmp` itself.
pub proof fn tmp_sibling_is_another(p: Seq<char>)
    requires
        file_name(p) is Some,
        extension(p) != Some("tmp"@),
    ensures
        tmp_sibling(p) != p,
{
    reveal_strlit(".tmp");
    reveal_strlit("tmp");
    let base = without_tail(p);
    let name = file_name(p)->Some_0;
    piece_start_bound(base);
    last_dot_facts(name);
    if tmp_sibling(p) == p {
        let k = base.len() - name.len() + stem_len(name);
        assert(p.len() == k + 4);
        assert(p.last() == 'p');
        assert(base == p);
        assert(name.len() == stem_len(name) + 4);
        assert(name.skip(last_dot(name) as int + 1) =~= "tmp"@) by {
            assert(forall|i: int| 0 <= i < name.len() ==> name[i] == p[p.len() - name.len() + i]);
        }
    }
}

/// A file name without a directory part and without an extension.
pub open spec fn is_plain_name(name: Seq<char>) -> bool {
    &&& name.len() > 0
    &&& forall|i: int| 0 <= i < name.len() ==> #[trigger] name[i] != '/' && name[i] != '.'
}

/// A path that ends with a plain name has this name and no extension, and its
/// temporary sibling is in the same directory.
pub proof fn tmp_sibling_of_plain(dir: Seq<char>, name: Seq<char>)
    requires
        is_plain_name(name),
    ensures
        file_name(join(dir, name)) == Some(name),
        extension(join(dir, name)) is None,
        tmp_sibling(join(dir, name)) == join(dir, name + ".tmp"@),
{
    let p = join(dir, name);
    let head = if dir.len() == 0 || dir.last() == '/' { dir } else { dir.push('/') };
    assert(name[0] != '/');
    assert(p =~= head + name);
    assert(p.last() == name[name.len() - 1]);
    assert(without_tail(p) == p);
    plain_piece_start(head, name);
    assert(p.skip(head.len() as int) =~= name);
    last_dot_facts(name);
    assert(name[0] != '.');
    assert(last_dot(name) == 0);
    assert(p.take(p.len() as int) =~= p);
    assert((name + ".tmp"@)[0] == name[0]);
    assert(tmp_sibling(p) =~= join(dir, name + ".tmp"@));
}

/// The last piece of a path starts behind the last slash.
pub proof fn plain_piece_start(head: Seq<char>, name: Seq<char>)
    requires
        head.len() == 0 || head.last() == '/',
        forall|i: int| 0 <= i < name.len() ==> name[i] != '/',
    ensures
        piece_start(head + name) == head.len(),
    decreases name.len(),
{
    let p = head + name;
    if name.len() > 0 {
        assert(p.last() == name[name.len() - 1]);
        assert(p.drop_last() =~= head + name.drop_last());
        plain_piece_start(head, name.drop_last());
    } else {
        assert(p =~= head);
    }
}

} // verus!
