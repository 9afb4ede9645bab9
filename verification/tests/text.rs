use game_tunnel::text::{
    contains_text, decimal, is_text_le, is_white_space, join_text, strip_text, text_eq, trim_text,
    trim_trailing_slashes,
};
use game_tunnel::text_map::TextMap;

#[test]
fn texts_compare_as_std_does() {
    let all = ["", "a", "ab", "b", "B", "\u{e4}", "z", "\u{10ffff}", "\u{ffff}"];
    for a in all {
        for b in all {
            assert_eq!(is_text_le(a, b), a <= b);
            assert_eq!(text_eq(a, b), a == b);
            assert_eq!(contains_text(a, b), a.contains(b));
            assert_eq!(strip_text(a, b), a.strip_prefix(b));
        }
    }
}

#[test]
fn search_finds_every_place() {
    assert!(contains_text("peer closed connection", "peer closed"));
    assert!(contains_text("xxab", "ab"));
    assert!(contains_text("abxx", "ab"));
    assert!(!contains_text("axb", "ab"));
    assert!(contains_text("anything", ""));
}

#[test]
fn white_space_is_that_of_unicode() {
    for n in 0..=0x10ffffu32 {
        if let Some(c) = char::from_u32(n) {
            assert_eq!(is_white_space(c), c.is_whitespace(), "{}", n);
        }
    }
}

#[test]
fn trimming_is_that_of_std() {
    for s in ["", " ", "a", " a ", "\t\n x y \u{3000}", "\u{a0}"] {
        assert_eq!(trim_text(s), s.trim());
        assert_eq!(trim_text(trim_text(s)), trim_text(s));
    }
    for s in ["", "/", "a//", "/a/", "http://x/", "//"] {
        assert_eq!(trim_trailing_slashes(s), s.trim_end_matches('/'));
    }
}

#[test]
fn numbers_are_written_in_full() {
    for n in [0u64, 7, 10, 99, 100, 65535, u32::MAX as u64, u64::MAX] {
        assert_eq!(decimal(n), format!("{}", n));
    }
}

#[test]
fn texts_are_joined() {
    assert_eq!(join_text(&vec![], ", "), "");
    assert_eq!(join_text(&vec!["a"], ", "), "a");
    assert_eq!(join_text(&vec!["a", "", "c"], ", "), "a, , c");
}

#[test]
fn text_map_behaves_as_a_map() {
    let mut m: TextMap<u32> = TextMap::new();
    assert_eq!(m.get("a"), None);
    m.insert("a", 1);
    m.insert("b", 2);
    m.insert("a", 3);
    assert_eq!(m.len(), 2);
    assert_eq!(m.get("a"), Some(&3));
    assert_eq!(m.get("b"), Some(&2));
    assert_eq!(m.key_at(0), "a");
    assert_eq!(m.value_at(1), &2);
    m.remove("a");
    m.remove("nobody");
    assert_eq!(m.get("a"), None);
    assert_eq!(m.get("b"), Some(&2));
    m.remove_at(0);
    assert_eq!(m.len(), 0);
}
