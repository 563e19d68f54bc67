//! Where paths lead: what joining does to their names, and which path is below
//! which.

use vstd::prelude::*;

use crate::config::Config;
use crate::path::{
    anchor, components, extension, file_name, join, last_dot, names, piece_len, piece_name,
    plain_piece_start, starts_with, stem_len, tmp_sibling, without_tail,
};

verus! {

/// Whether `s` holds no slash.
pub open spec fn is_piece(s: Seq<char>) -> bool {
    forall|i: int| 0 <= i < s.len() ==> #[trigger] s[i] != '/'
}

/// A path without slashes goes through one name, unless it is empty or a dot.
pub proof fn piece_is_one_name(p: Seq<char>)
    requires
        is_piece(p),
    ensures
        names(p) == if p.len() == 0 || (p.len() == 1 && p[0] == '.') {
            Seq::<Seq<char>>::empty()
        } else {
            seq![p]
        },
{
    piece_ends(p, seq![]);
    assert(p + seq![] =~= p);
    if p.len() == 1 && p[0] == '.' {
        assert(p =~= seq!['.']);
    }
}

/// A slash separates names: a path goes through the names before it and then
/// through those behind it.
pub proof fn slash_separates_names(a: Seq<char>, b: Seq<char>)
    ensures
        names(a + seq!['/'] + b) == names(a) + names(b),
    decreases a.len(),
{
    let s = a + seq!['/'] + b;
    let n = piece_len(a) as int;
    piece_len_bound(a);
    let head = a.take(n);
    if n < a.len() {
        let tail = a.skip(n + 1);
        piece_len_stops(a);
        assert(a =~= head + a.skip(n));
        piece_ends(head, s.skip(n));
        assert(s =~= head + s.skip(n));
        assert(s[n] == a[n]);
        assert(s.take(n) =~= head);
        assert(s.skip(n + 1) =~= tail + seq!['/'] + b);
        slash_separates_names(tail, b);
        assert(piece_name(head) + (names(tail) + names(b)) =~= piece_name(head) + names(tail) + names(b));
    } else {
        piece_len_stops(a);
        assert(head =~= a);
        piece_ends(a, s.skip(n));
        assert(s =~= a + s.skip(n));
        assert(s[n] == '/');
        assert(s.take(n) =~= a);
        assert(s.skip(n + 1) =~= b);
    }
}

proof fn piece_len_bound(s: Seq<char>)
    ensures
        piece_len(s) <= s.len(),
    decreases s.len(),
{
    if s.len() > 0 && s[0] != '/' {
        piece_len_bound(s.skip(1));
    }
}

proof fn piece_len_stops(s: Seq<char>)
    ensures
        piece_len(s) <= s.len(),
        piece_len(s) < s.len() ==> s[piece_len(s) as int] == '/',
        is_piece(s.take(piece_len(s) as int)),
    decreases s.len(),
{
    if s.len() > 0 && s[0] != '/' {
        let t = s.skip(1);
        piece_len_stops(t);
        let n = piece_len(s) as int;
        assert forall|i: int| 0 <= i < n implies #[trigger] s.take(n)[i] != '/' by {
            if i > 0 {
                assert(t.take(n - 1)[i - 1] != '/');
                assert(t[i - 1] == s[i]);
            }
        }
    }
}

proof fn piece_ends(piece: Seq<char>, rest: Seq<char>)
    requires
        is_piece(piece),
        rest.len() == 0 || rest[0] == '/',
    ensures
        piece_len(piece + rest) == piece.len(),
    decreases piece.len(),
{
    let t = piece + rest;
    if piece.len() == 0 {
        assert(t =~= rest);
    } else {
        assert(t[0] == piece[0]);
        assert(t.skip(1) =~= piece.skip(1) + rest);
        assert forall|i: int| 0 <= i < piece.skip(1).len() implies #[trigger] piece.skip(1)[i] != '/' by {
            assert(piece[i + 1] != '/');
        }
        piece_ends(piece.skip(1), rest);
    }
}

/// The components of a path: the root comes first in an absolute path, the dot
/// first in one that starts with it as a whole piece, and the names follow. Any
/// other path has its names only.
pub proof fn components_are_the_start_and_the_names(rest: Seq<char>)
    ensures
        components(seq!['/'] + rest) == seq![seq!['/']] + names(rest),
        components(seq!['.', '/'] + rest) == seq![seq!['.']] + names(rest),
        components(seq!['.']) == seq![seq!['.']],
        rest.len() == 0 || (rest[0] != '/' && rest[0] != '.') ==> components(rest) == names(rest),
        rest.len() > 1 && rest[0] == '.' && rest[1] != '/' ==> components(rest) == names(rest),
{
    let nothing = Seq::<char>::empty();
    slash_separates_names(nothing, rest);
    piece_is_one_name(nothing);
    assert(nothing + seq!['/'] + rest =~= seq!['/'] + rest);
    assert(components(seq!['/'] + rest) =~= seq![seq!['/']] + names(rest));
    let dot = seq!['.'];
    slash_separates_names(dot, rest);
    piece_is_one_name(dot);
    assert(dot + seq!['/'] + rest =~= seq!['.', '/'] + rest);
    assert(components(seq!['.', '/'] + rest) =~= seq![seq!['.']] + names(rest));
    assert(components(dot) =~= seq![seq!['.']]);
    assert(anchor(rest).len() == 0 ==> components(rest) =~= names(rest));
}

/// What is joined to a path: a relative name comes behind it, with one slash
/// between them where the path has none at its end; an absolute one replaces it.
pub proof fn join_is_the_path_below(base: Seq<char>, name: Seq<char>)
    ensures
        name.len() > 0 && name[0] == '/' ==> join(base, name) == name,
        (name.len() == 0 || name[0] != '/') && base.len() > 0 && base.last() != '/' ==> join(base, name) == base
            + seq!['/'] + name,
        (name.len() == 0 || name[0] != '/') && base.len() > 0 && base.last() == '/' ==> join(base, name) == base
            + name,
        (name.len() == 0 || name[0] != '/') && base.len() == 0 ==> join(base, name) == name,
{
    assert(base.push('/') + name =~= base + seq!['/'] + name);
    assert(base.len() == 0 ==> base + name =~= name);
}

/// The path of a relative name below a directory goes through the directory and
/// then through every name of what was joined.
pub proof fn join_goes_through_both(base: Seq<char>, name: Seq<char>)
    requires
        name.len() == 0 || name[0] != '/',
    ensures
        names(join(base, name)) == names(base) + names(name),
        base.len() > 0 ==> components(join(base, name)) == components(base) + names(name),
{
    join_is_the_path_below(base, name);
    if base.len() == 0 {
        piece_is_one_name(base);
        assert(names(base) + names(name) =~= names(name));
    } else {
        if base.last() == '/' {
            let head = base.drop_last();
            slash_separates_names(head, name);
            slash_separates_names(head, seq![]);
            piece_is_one_name(seq![]);
            assert(head + seq!['/'] + name =~= base + name);
            assert(head + seq!['/'] + seq![] =~= base);
            assert(names(head) + names(seq![]) =~= names(head));
        } else {
            slash_separates_names(base, name);
        }
        let p = join(base, name);
        assert(p[0] == base[0]);
        assert(base.len() > 1 ==> p[1] == base[1]);
        assert(anchor(p) =~= anchor(base)) by {
            if base.len() == 1 && base[0] == '.' {
                assert(p[1] == '/');
            }
        }
        assert(components(p) =~= components(base) + names(name));
    }
}

/// The source subvolume is the configured one: below the source path, through
/// every name of it, where it is relative, and itself where it is absolute.
pub proof fn subvolume_is_below_the_source(config: Config)
    ensures
        ({
            let base = config.paths.source_path@;
            let sub = config.paths.source_subvolume@;
            let path = config.subvolume();
            if sub.len() > 0 && sub[0] == '/' {
                path == sub
            } else {
                &&& names(path) == names(base) + names(sub)
                &&& base.len() > 0 ==> components(path) == components(base) + names(sub)
                &&& base.len() > 0 && base.last() != '/' ==> path == base + seq!['/'] + sub
                &&& base.len() > 0 && base.last() == '/' ==> path == base + sub
                &&& base.len() == 0 ==> path == sub
            }
        }),
{
    let base = config.paths.source_path@;
    let sub = config.paths.source_subvolume@;
    join_is_the_path_below(base, sub);
    if !(sub.len() > 0 && sub[0] == '/') {
        join_goes_through_both(base, sub);
    }
}

/// A path starts with another one exactly where the components of the other are
/// the first of its own.
pub proof fn prefix_is_by_whole_components(p: Seq<char>, base: Seq<char>)
    ensures
        starts_with(p, base) <==> {
            &&& components(base).len() <= components(p).len()
            &&& forall|i: int| 0 <= i < components(base).len() ==> #[trigger] components(base)[i] == components(p)[i]
        },
{
    let b = components(base);
    let c = components(p);
    if starts_with(p, base) {
        assert forall|i: int| 0 <= i < b.len() implies #[trigger] b[i] == c[i] by {
            assert(b[i] == c.subrange(0, b.len() as int)[i]);
        }
    }
    if b.len() <= c.len() && (forall|i: int| 0 <= i < b.len() ==> #[trigger] b[i] == c[i]) {
        assert(b =~= c.subrange(0, b.len() as int));
    }
}

/// A path starts with the directory that it is below; every absolute path starts
/// with the root, and no other one does.
pub proof fn what_is_below_starts_with_it(base: Seq<char>, name: Seq<char>)
    requires
        name.len() == 0 || name[0] != '/',
        base.len() > 0,
    ensures
        starts_with(join(base, name), base),
        starts_with(base, base),
        starts_with(base, seq!['/']) <==> base[0] == '/',
{
    join_goes_through_both(base, name);
    prefix_is_by_whole_components(join(base, name), base);
    prefix_is_by_whole_components(base, base);
    let root = seq!['/'];
    components_are_the_start_and_the_names(seq![]);
    piece_is_one_name(seq![]);
    assert(seq!['/'] + Seq::<char>::empty() =~= root);
    assert(components(root) =~= seq![seq!['/']]);
    prefix_is_by_whole_components(base, root);
    if base[0] == '/' {
        assert(base =~= seq!['/'] + base.skip(1));
        components_are_the_start_and_the_names(base.skip(1));
        assert(components(base)[0] == components(root)[0]);
    } else if starts_with(base, root) {
        assert(components(root)[0] == components(base)[0]);
        assert(components(base)[0] == seq!['/']);
        if base[0] == '.' && (base.len() == 1 || base[1] == '/') {
            assert(components(base)[0] == seq!['.']);
            assert(seq!['.'][0] != seq!['/'][0]);
        } else {
            assert(anchor(base) =~= seq![]);
            assert(components(base) =~= names(base));
            names_are_pieces(base, 0);
            assert(seq!['/'][0] == '/');
        }
        assert(false);
    }
}

/// No name of a path holds a slash.
proof fn names_are_pieces(s: Seq<char>, i: int)
    requires
        0 <= i < names(s).len(),
    ensures
        is_piece(names(s)[i]),
    decreases s.len(),
{
    let n = piece_len(s) as int;
    piece_len_stops(s);
    if n < s.len() {
        let first = piece_name(s.take(n));
        if i >= first.len() {
            names_are_pieces(s.skip(n + 1), i - first.len());
        }
    } else {
        assert(s.take(n) =~= s);
    }
}

/// The temporary sibling of a file with an extension has the extension `tmp` in
/// place of it, in the same directory. The extension may be empty.
pub proof fn tmp_sibling_replaces_the_extension(dir: Seq<char>, stem: Seq<char>, ext: Seq<char>)
    requires
        is_piece(stem),
        is_piece(ext),
        stem.len() > 0,
        ext.len() > 0 || stem != seq!['.'],
        forall|i: int| 0 <= i < ext.len() ==> #[trigger] ext[i] != '.',
    ensures
        tmp_sibling(join(dir, stem + seq!['.'] + ext)) == join(dir, stem + ".tmp"@),
        extension(join(dir, stem + seq!['.'] + ext)) == Some(ext),
{
    let name = stem + seq!['.'] + ext;
    let p = join(dir, name);
    let head = if dir.len() == 0 || dir.last() == '/' {
        dir
    } else {
        dir.push('/')
    };
    assert(name[0] == stem[0]);
    assert(p =~= head + name);
    if ext.len() > 0 {
        assert(p.last() == ext[ext.len() - 1]);
    } else {
        assert(p.last() == '.');
        assert(p[p.len() - 2] == stem[stem.len() - 1]);
        assert(name != seq!['.', '.']) by {
            if name == seq!['.', '.'] {
                assert(name.len() == 2 && name[0] == '.');
                assert(stem =~= seq!['.']);
            }
        }
    }
    assert(without_tail(p) == p);
    assert forall|i: int| 0 <= i < name.len() implies name[i] != '/' by {
        if i < stem.len() {
            assert(stem[i] != '/');
        } else if i > stem.len() {
            assert(ext[i - stem.len() - 1] != '/');
        }
    }
    plain_piece_start(head, name);
    assert(p.skip(head.len() as int) =~= name);
    last_dot_is_before(stem, ext);
    if ext.len() > 0 {
        assert(name.last() == ext[ext.len() - 1]);
    }
    assert(file_name(p) == Some(name));
    assert(name.skip(last_dot(name) as int + 1) =~= ext);
    assert(stem_len(name) == stem.len());
    assert(p.take(head.len() as int + stem.len()) =~= head + stem);
    assert((stem + ".tmp"@)[0] == stem[0]);
    assert(tmp_sibling(p) =~= join(dir, stem + ".tmp"@));
}

proof fn last_dot_is_before(stem: Seq<char>, ext: Seq<char>)
    requires
        forall|i: int| 0 <= i < ext.len() ==> #[trigger] ext[i] != '.',
    ensures
        last_dot(stem + seq!['.'] + ext) == stem.len(),
    decreases ext.len(),
{
    let name = stem + seq!['.'] + ext;
    if ext.len() == 0 {
        assert(name.last() == '.');
    } else {
        assert(name.last() == ext[ext.len() - 1]);
        assert(name.drop_last() =~= stem + seq!['.'] + ext.drop_last());
        last_dot_is_before(stem, ext.drop_last());
    }
}

/// A file whose only dot is the first character has no extension: its temporary
/// sibling has `.tmp` behind the whole name.
pub proof fn tmp_sibling_of_hidden_file(dir: Seq<char>, rest: Seq<char>)
    requires
        is_piece(rest),
        rest.len() > 0,
        forall|i: int| 0 <= i < rest.len() ==> #[trigger] rest[i] != '.',
    ensures
        extension(join(dir, seq!['.'] + rest)) is None,
        tmp_sibling(join(dir, seq!['.'] + rest)) == join(dir, seq!['.'] + rest + ".tmp"@),
{
    let name = seq!['.'] + rest;
    let p = join(dir, name);
    let head = if dir.len() == 0 || dir.last() == '/' {
        dir
    } else {
        dir.push('/')
    };
    assert(name[0] == '.');
    assert(p =~= head + name);
    assert(p.last() == rest[rest.len() - 1]);
    assert(without_tail(p) == p);
    assert forall|i: int| 0 <= i < name.len() implies name[i] != '/' by {
        if i > 0 {
            assert(rest[i - 1] != '/');
        }
    }
    plain_piece_start(head, name);
    assert(p.skip(head.len() as int) =~= name);
    last_dot_is_before(seq![], rest);
    assert(Seq::<char>::empty() + seq!['.'] + rest =~= name);
    assert(name[1] == rest[0]);
    assert(rest[0] != '.');
    assert(file_name(p) == Some(name));
    assert(p.take(p.len() as int) =~= p);
    assert((name + ".tmp"@)[0] == '.');
    assert(tmp_sibling(p) =~= join(dir, name + ".tmp"@));
}

/// Slashes and single dots behind the last name of a path do not belong to it.
pub proof fn tmp_sibling_ignores_the_tail(p: Seq<char>)
    requires
        file_name(p) is Some,
    ensures
        file_name(p.push('/')) == file_name(p),
        tmp_sibling(p.push('/')) == tmp_sibling(p),
        tmp_sibling(p.push('/').push('.')) == tmp_sibling(p),
{
    let q = p.push('/');
    assert(q.drop_last() =~= p);
    assert(without_tail(q) == without_tail(p));
    let r = q.push('.');
    assert(r.drop_last() =~= q);
    assert(r[r.len() - 2] == '/');
    assert(without_tail(r) == without_tail(q));
}

/// The root, the current directory and a parent directory have no name, and are
/// their own siblings.
pub proof fn nameless_paths_have_no_sibling(dir: Seq<char>)
    ensures
        tmp_sibling(seq!['/']) == seq!['/'],
        tmp_sibling(seq!['.']) == seq!['.'],
        tmp_sibling(join(dir, seq!['.', '.'])) == join(dir, seq!['.', '.']),
{
    let root = seq!['/'];
    assert(root.drop_last() =~= seq![]);
    assert(without_tail(root.drop_last()) =~= seq![]);
    assert(without_tail(root) =~= seq![]);
    assert(file_name(root) is None);
    let dot = seq!['.'];
    assert(without_tail(dot) == dot);
    plain_piece_start(seq![], dot);
    assert(Seq::<char>::empty() + dot =~= dot);
    assert(dot.skip(0) =~= dot);
    assert(file_name(dot) is None);
    let name = seq!['.', '.'];
    let p = join(dir, name);
    let head = if dir.len() == 0 || dir.last() == '/' {
        dir
    } else {
        dir.push('/')
    };
    assert(p =~= head + name);
    assert(p.last() == '.');
    assert(p[p.len() - 2] == '.');
    assert(without_tail(p) == p);
    plain_piece_start(head, name);
    assert(p.skip(head.len() as int) =~= name);
    assert(file_name(p) is None);
}

} // verus!
