use goose_hostops::encoding::{after_bytes, char_width};
use goose_hostops::numbers::{decimal_text, parse_u32};
use goose_hostops::order::{comes_before, sorted_order, SortKey};
use goose_hostops::paths::{
    is_absolute, path_extension, path_file_name, path_join, path_parent,
};
use goose_hostops::platform::Platform;
use goose_hostops::text::{
    contains, is_whitespace, join, lines_of, replace, same_text, split_text, starts_with,
    strip_prefix, trim, trim_all,
};
use std::path::Path;

/// All texts of up to `max` of these characters.
fn all_texts(alphabet: &[char], max: usize) -> Vec<String> {
    let mut out = vec![String::new()];
    let mut from = 0;
    for _ in 0..max {
        let to = out.len();
        for i in from..to {
            for c in alphabet {
                let mut next = out[i].clone();
                next.push(*c);
                out.push(next);
            }
        }
        from = to;
    }
    out
}

#[test]
fn white_space_is_that_of_unicode() {
    for n in 0..=0x10ffff_u32 {
        if let Some(c) = char::from_u32(n) {
            assert_eq!(is_whitespace(c), c.is_whitespace(), "{n:x}");
        }
    }
}

#[test]
fn widths_are_those_of_utf8() {
    for c in ['a', '\u{7f}', '\u{80}', '\u{7ff}', '\u{800}', '\u{ffff}', '\u{10000}', '\u{10ffff}'] {
        assert_eq!(char_width(c), c.len_utf8());
    }
    assert_eq!(after_bytes("aé€x", 3), Some("€x".to_string()));
    assert_eq!(after_bytes("aé€x", 2), None);
    assert_eq!(after_bytes("ab", 2), Some(String::new()));
    assert_eq!(after_bytes("ab", 3), None);
}

#[test]
fn texts_are_cut_like_those_of_std() {
    for s in all_texts(&['a', '\r', '\n', ' '], 6) {
        assert_eq!(trim(&s), s.trim());
        assert_eq!(lines_of(&s), s.lines().collect::<Vec<_>>());
        for pat in ["a", "\r\n", "aa", " a"] {
            assert_eq!(split_text(&s, pat), s.split(pat).collect::<Vec<_>>());
            assert_eq!(replace(&s, pat, "\n"), s.replace(pat, "\n"));
            assert_eq!(replace(&s, pat, "aa"), s.replace(pat, "aa"));
            assert_eq!(contains(&s, pat), s.contains(pat));
            assert_eq!(starts_with(&s, pat), s.starts_with(pat));
            assert_eq!(strip_prefix(&s, pat).as_deref(), s.strip_prefix(pat));
            assert_eq!(same_text(&s, pat), s == pat);
        }
    }
}

#[test]
fn trimming_twice_changes_nothing() {
    for s in all_texts(&['x', ' ', '\t'], 5) {
        let once = trim(&s);
        assert_eq!(trim(&once), once);
    }
}

#[test]
fn texts_are_joined() {
    let list: Vec<String> = ["a", "", "b"].iter().map(|s| s.to_string()).collect();
    assert_eq!(join(&list, ", "), "a, , b");
    assert_eq!(join(&vec![], "x"), "");
    let inked: Vec<String> = vec!["x ".into(), " ".into(), "\ny".into()];
    assert_eq!(trim_all(&inked), vec!["x", "y"]);
}

#[test]
fn paths_are_cut_like_those_of_std() {
    for s in all_texts(&['/', '.', 'a'], 7) {
        let path = Path::new(&s);
        assert_eq!(is_absolute(&s, Platform::Unix), path.is_absolute(), "{s}");
        let name = path.file_name().map(|p| p.to_string_lossy().into_owned());
        assert_eq!(path_file_name(&s, Platform::Unix), name, "{s}");
        let extension = path.extension().map(|p| p.to_string_lossy().into_owned());
        assert_eq!(path_extension(&s, Platform::Unix), extension, "{s}");
        let parent = path.parent().map(|p| p.to_string_lossy().into_owned());
        assert_eq!(path_parent(&s, Platform::Unix), parent, "{s}");
    }
}

#[test]
fn paths_are_joined_like_those_of_std() {
    let parts = all_texts(&['/', '.', 'a'], 3);
    for base in &parts {
        for rest in &parts {
            let expected = Path::new(base).join(rest).to_string_lossy().into_owned();
            assert_eq!(path_join(base, rest, Platform::Unix), expected, "{base} {rest}");
        }
    }
}

#[test]
fn windows_paths_have_drives_and_shares() {
    let w = Platform::Windows;
    for (path, expected) in [
        ("c:\\windows", true),
        ("c:/windows", true),
        ("c:temp", false),
        ("\\temp", false),
        ("\\\\server\\share", true),
        ("\\\\server", false),
        ("temp", false),
        ("", false),
    ] {
        assert_eq!(is_absolute(path, w), expected, "{path}");
    }
    for path in ["\\\\?\\C:\\x", "\\\\?\\UNC\\s\\h", "\\\\?\\x", "\\\\.\\COM1", "\\\\.\\", "//?/C:/x"] {
        assert!(is_absolute(path, w), "{path}");
        assert!(!is_absolute(path, Platform::Unix) || path.starts_with('/'), "{path}");
    }
    assert!(!is_absolute("c:\\windows", Platform::Unix));
}

#[test]
fn verbatim_paths_are_cut_at_backslashes() {
    let w = Platform::Windows;
    let name = |p: &str| path_file_name(p, w);
    let up = |p: &str| path_parent(p, w);
    let text = |s: &str| Some(s.to_string());
    assert_eq!(name(r"\\?\C:\a\b.png"), text("b.png"));
    assert_eq!(name(r"\\?\C:\a\b/c.png"), text("b/c.png"));
    assert_eq!(name(r"\\?\C:/a/b"), text("a/b"));
    assert_eq!(name(r"\\?\C:"), None);
    assert_eq!(name(r"\\?\C:\"), None);
    assert_eq!(name(r"\\?\C:a\b"), text("b"));
    assert_eq!(name(r"\\?\UNC\s\h"), None);
    assert_eq!(name(r"\\?\UNC\s\h\x"), text("x"));
    assert_eq!(name(r"\\?\UNC\s"), None);
    assert_eq!(name(r"\\?\UNC\s\\x"), text("x"));
    assert_eq!(name(r"\\?\Volume\x"), text("x"));
    assert_eq!(name(r"\\?\Volume"), None);
    assert_eq!(name(r"\\?\C:\a\."), None);
    assert_eq!(name(r"\\?\C:\a\.."), None);
    assert_eq!(name(r"\\?/C:\a"), text("a"));
    assert_eq!(name(r"\\.\COM1"), None);
    assert_eq!(name(r"\\.\COM1/x"), text("x"));
    assert_eq!(up(r"\\?\C:\a\b"), text(r"\\?\C:\a"));
    assert_eq!(up(r"\\?\C:\a\b\\"), text(r"\\?\C:\a"));
    assert_eq!(up(r"\\?\C:\a\."), text(r"\\?\C:\a"));
    assert_eq!(up(r"\\?\C:\a"), text(r"\\?\C:\"));
    assert_eq!(up(r"\\?\C:\"), None);
    assert_eq!(up(r"\\?\C:"), None);
    assert_eq!(up(r"\\?\UNC\s\h\x"), text(r"\\?\UNC\s\h\"));
    assert_eq!(up(r"\\?\UNC\s\h"), None);
    assert_eq!(path_extension(r"\\?\C:\a.b\c.png", w), text("png"));
    assert_eq!(path_extension(r"\\?\UNC\s\h.png", w), None);
}

#[test]
fn paths_are_joined_to_verbatim_ones() {
    let join = |base: &str, rest: &str| path_join(base, rest, Platform::Windows);
    assert_eq!(join(r"\\?\C:\bar", "foo"), r"\\?\C:\bar\foo");
    assert_eq!(join(r"\\?\C:\bar", "a/b"), r"\\?\C:\bar\a\b");
    assert_eq!(join(r"\\?\C:\bar", "../foo"), r"\\?\C:\foo");
    assert_eq!(join(r"\\?\C:\bar", "../../foo"), r"\\?\C:\foo");
    assert_eq!(join(r"\\?\C:\", "../foo"), r"\\?\C:\foo");
    assert_eq!(join(r"\\?\C:", "foo"), r"\\?\C:\foo");
    assert_eq!(join(r"\\?\A:", r"..\foo\."), r"\\?\A:\foo");
    assert_eq!(join(r"\\?\A:\x\y", "/foo"), r"\\?\A:\foo");
    assert_eq!(join(r"\\?\A:\x", "."), r"\\?\A:\x");
    assert_eq!(join(r"\\?\A:\x", ".."), r"\\?\A:\");
    assert_eq!(join(r"\\?\A:\x", r"\"), r"\\?\A:\");
    assert_eq!(join(r"\\?\A:\x", ""), r"\\?\A:\x\");
    assert_eq!(join(r"\\?\C:", r"D:\foo/./"), r"D:\foo/./");
    assert_eq!(join(r"\\?\C:", r"\\?\D:\foo\.\"), r"\\?\D:\foo\.\");
    assert_eq!(join(r"\\?\UNC\server\share\foo", "bar"), r"\\?\UNC\server\share\foo\bar");
    assert_eq!(join(r"\\?\UNC\server\share", "C:a"), "C:a");
    assert_eq!(join(r"\\?\UNC\server", "foo"), r"\\?\UNC\server\foo");
    assert_eq!(join(r"C:\a", r"\\?\UNC\server\share"), r"\\?\UNC\server\share");
    assert_eq!(join(r"\\.\foo\bar", "baz"), r"\\.\foo\bar\baz");
    assert_eq!(join(r"\\.\foo", r"..\bar"), r"\\.\foo\..\bar");
}

#[test]
fn windows_paths_are_cut() {
    let w = Platform::Windows;
    let name = |p: &str| path_file_name(p, w);
    let up = |p: &str| path_parent(p, w);
    let text = |s: &str| Some(s.to_string());
    assert_eq!(name("C:\\a\\b.png"), text("b.png"));
    assert_eq!(name("C:\\a/b.png\\"), text("b.png"));
    assert_eq!(name("C:\\"), None);
    assert_eq!(name("C:"), None);
    assert_eq!(name("C:b"), text("b"));
    assert_eq!(name("\\\\server\\share"), None);
    assert_eq!(name("\\\\server\\share\\x"), text("x"));
    assert_eq!(up("C:\\a\\b"), text("C:\\a"));
    assert_eq!(up("C:\\a"), text("C:\\"));
    assert_eq!(up("C:a"), text("C:"));
    assert_eq!(up("C:\\"), None);
    assert_eq!(up("C:"), None);
    assert_eq!(up("a"), text(""));
    assert_eq!(up("a\\.\\b\\.\\"), text("a"));
    assert_eq!(up("\\\\server\\share\\x"), text("\\\\server\\share\\"));
    assert_eq!(up("\\\\server\\share\\"), None);
    assert_eq!(path_extension("C:\\a.b\\c.tar.gz", w), text("gz"));
    assert_eq!(path_extension("C:\\a.b\\c", w), None);
    assert_eq!(path_file_name("C:\\a\\b", Platform::Unix), text("C:\\a\\b"));
}

#[test]
fn windows_paths_are_joined() {
    let join = |base: &str, rest: &str| path_join(base, rest, Platform::Windows);
    assert_eq!(join("C:\\a", "b\\c"), "C:\\a\\b\\c");
    assert_eq!(join("C:\\", "b"), "C:\\b");
    assert_eq!(join("C:/a/", "b"), "C:/a/b");
    assert_eq!(join("C:", "b"), "C:b");
    assert_eq!(join("C:\\a", "\\b"), "C:\\b");
    assert_eq!(join("C:\\a", "D:\\b"), "D:\\b");
    assert_eq!(join("C:\\a", "D:b"), "D:b");
    assert_eq!(join("\\\\server\\share", "x"), "\\\\server\\share\\x");
    assert_eq!(join("\\\\server\\share\\x", "/y"), "\\\\server\\share/y");
    assert_eq!(join("", "x"), "x");
}

#[test]
fn numbers_are_read_like_those_of_std() {
    for s in all_texts(&['0', '9', '+', '-', 'x'], 4) {
        assert_eq!(parse_u32(&s), s.parse::<u32>().ok(), "{s}");
    }
    for s in ["4294967295", "4294967296", "+4294967295", "00000000000000000001", " 1", "１"] {
        assert_eq!(parse_u32(s), s.parse::<u32>().ok(), "{s}");
    }
}

#[test]
fn numbers_are_written_and_read_back() {
    for n in [0_u64, 9, 10, 99, 100, 4294967295, 18446744073709551615] {
        assert_eq!(decimal_text(n), n.to_string());
    }
    for n in [0_u32, 7, 10, 12345, u32::MAX] {
        assert_eq!(parse_u32(&decimal_text(n as u64)), Some(n));
    }
}

#[test]
fn texts_are_ordered_like_those_of_std() {
    let list = ["", "a", "aa", "ab", "b", "\u{7f}", "é", "\u{ffff}", "\u{10000}"];
    for a in list {
        for b in list {
            assert_eq!(comes_before(a, b), a < b, "{a} {b}");
        }
    }
}

#[test]
fn sorting_is_stable() {
    let key = |rank: u8, primary: &str, secondary: &str| SortKey {
        rank,
        primary: primary.to_string(),
        secondary: secondary.to_string(),
    };
    let keys = vec![
        key(1, "b", "x"),
        key(0, "z", ""),
        key(1, "a", "y"),
        key(1, "b", "x"),
        key(1, "a", "x"),
        key(0, "z", ""),
    ];
    assert_eq!(sorted_order(&keys), vec![1, 5, 4, 2, 0, 3]);
    assert!(sorted_order(&vec![]).is_empty());
}
