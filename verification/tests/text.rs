//! The text, number, order and path functions, held against std.

use std::path::{Component, Path};

use btrshot::number::{decimal_text, parse_number, signed_text};
use btrshot::order::{comes_first, sorted_names};
use btrshot::path::{components_of, joined_path, path_starts_with, tmp_sibling_of};
use btrshot::text::{chars_of, has_prefix, is_whitespace, joined, same_text, split_lines, split_words, trimmed};

const SAMPLES: &[&str] = &[
    "",
    " ",
    "\n",
    "\r\n",
    "\r",
    "a",
    " a ",
    "a b",
    "  a \t b\u{a0}c  ",
    "a\nb",
    "a\r\nb\r\n",
    "a\n\nb\n",
    "\n\n",
    "a\rb\r",
    "x\r\r\ny",
    "\u{3000}wide\u{2028}line\u{85}next",
    "grün \u{1f600} ß",
    "a\u{200b}b",
    "2024-01-01 12:00:00      12345 full_20240101_120000.tar.gpg\n",
];

#[test]
fn white_space_is_that_of_unicode() {
    let mut c: u32 = 0;
    while c <= 0x10_ffff {
        if let Some(c) = char::from_u32(c) {
            assert_eq!(is_whitespace(c), c.is_whitespace(), "{:?}", c);
        }
        c += 1;
    }
}

#[test]
fn lines_words_and_trimming_are_those_of_std() {
    for s in SAMPLES {
        assert_eq!(split_lines(s), s.lines().collect::<Vec<_>>(), "{s:?}");
        assert_eq!(split_words(s), s.split_whitespace().collect::<Vec<_>>(), "{s:?}");
        assert_eq!(trimmed(s), s.trim(), "{s:?}");
        assert_eq!(chars_of(s), s.chars().collect::<Vec<_>>(), "{s:?}");
    }
}

#[test]
fn pairs_of_texts_compare_as_in_std() {
    for a in SAMPLES {
        for b in SAMPLES {
            assert_eq!(same_text(a, b), a == b, "{a:?} {b:?}");
            assert_eq!(joined(a, b), format!("{a}{b}"));
            assert_eq!(has_prefix(a, b), a.starts_with(b), "{a:?} {b:?}");
            assert_eq!(comes_first(a, b), a <= b, "{a:?} {b:?}");
        }
    }
}

#[test]
fn names_are_sorted_as_in_std() {
    let mut names: Vec<String> = SAMPLES.iter().map(|s| s.to_string()).collect();
    names.extend(["b", "a", "ab", "a", "full_2", "full_10", "incr_1"].map(String::from));
    let sorted = sorted_names(&names);
    names.sort_unstable();
    assert_eq!(sorted, names);
}

#[test]
fn numbers_are_written_and_read_as_in_std() {
    for n in [0, 1, 9, 10, 42, 100, 1_706_000_000, u64::MAX - 1, u64::MAX] {
        assert_eq!(decimal_text(n), n.to_string());
        assert_eq!(parse_number(&n.to_string()), Some(n));
    }
    for i in [0, 1, -1, 9, -10, 137, i32::MAX, i32::MIN] {
        assert_eq!(signed_text(i), i.to_string());
    }
    for s in [
        "", "+", "-", "-0", "+0", "00012", "+5", "++5", "1e3", " 1", "1 ", "18446744073709551615",
        "18446744073709551616", "99999999999999999999999", "000000000000000000000000000001", "٣",
    ] {
        assert_eq!(parse_number(s), s.parse::<u64>().ok(), "{s:?}");
    }
}

const PATHS: &[&str] = &[
    "", "/", "//", ".", "./", "..", "../", "a", "a/", "a//b", "/a", "/a/", "/a/b", "/a/./b", "/a/../b", "./a", "a/.",
    "a/./b", "/mnt/backup", "/mnt/back", "/mnt/backup/snapshots", "/.", "/./a", ".a", "..a/b", "//a", "a/..",
];

fn std_components(p: &str) -> Vec<String> {
    Path::new(p)
        .components()
        .map(|c| match c {
            Component::RootDir => "/".to_owned(),
            other => other.as_os_str().to_string_lossy().into_owned(),
        })
        .collect()
}

#[test]
fn paths_behave_as_in_std() {
    for a in PATHS {
        assert_eq!(components_of(a), std_components(a), "{a:?}");
        for b in PATHS {
            assert_eq!(joined_path(a, b), Path::new(a).join(b).to_string_lossy(), "{a:?} {b:?}");
            assert_eq!(path_starts_with(a, b), Path::new(a).starts_with(b), "{a:?} {b:?}");
        }
    }
}

#[test]
fn temporary_siblings_are_those_of_std() {
    let names = [
        "a", "a.b", "a.b.c", ".a", ".a.b", "...", "....", "a.", "a..", "a..b", ".", "..", "a.tmp", "x.tmp.tmp", "tmp",
        ".tmp", "grün.ß", "",
    ];
    let heads = ["", "/", "d/", "d.e/", "./", "../", "/d//", "d/./"];
    let tails = ["", "/", "//", "/.", "/./", "//.//", "/..", "/././."];
    for head in heads {
        for name in names {
            for tail in tails {
                let p = format!("{head}{name}{tail}");
                assert_eq!(tmp_sibling_of(&p), Path::new(&p).with_extension("tmp").to_string_lossy(), "{p:?}");
            }
        }
    }
}

#[test]
fn a_single_dot_is_a_stem() {
    assert_eq!(tmp_sibling_of("..a"), "..tmp");
    assert_eq!(tmp_sibling_of("d/..a/"), "d/..tmp");
}
