use std::path::Path;
use forest_ear_bot::paths::{path_extension, path_file_name, path_join, path_parent, path_strip_prefix};
use forest_ear_bot::text::{clip_chars, join_strings, split_words, trim_class, CharClass};

#[test]
fn trimming_matches_str_trim() {
    for s in ["  a b  ", "\u{3000}x\u{85}", "", "   ", "\tq\n", "a\u{200b}"] {
        assert_eq!(trim_class(s, &CharClass::WhiteSpace), s.trim(), "input {:?}", s);
        let words: Vec<String> = s.split_whitespace().map(|w| w.to_string()).collect();
        assert_eq!(split_words(s), words, "input {:?}", s);
    }
    assert_eq!(trim_class("//a/b//", &CharClass::Exactly('/')), "a/b");
}

#[test]
fn clipping_counts_characters() {
    assert_eq!(clip_chars("abc", 3), "abc");
    assert_eq!(clip_chars("abcd", 3), "ab\u{2026}");
    assert_eq!(clip_chars("\u{1F600}\u{1F600}\u{1F600}", 2), "\u{1F600}\u{2026}");
}

#[test]
fn joining_puts_the_separator_between() {
    assert_eq!(join_strings(&vec![], " "), "");
    assert_eq!(join_strings(&vec!["a".to_string()], " "), "a");
    assert_eq!(join_strings(&vec!["a".to_string(), "b".to_string()], ", "), "a, b");
}

#[test]
fn paths_split_like_std() {
    for p in ["/a/b/c.txt", "a/b/", "a//b/./c", "./a", ".", "..", "/", "", "a", "/a", "x/..", "a.tar.gz", ".hidden", "a/b."] {
        let std_name = Path::new(p).file_name().map(|n| n.to_str().unwrap().to_string());
        assert_eq!(path_file_name(p, false), std_name, "file name of {:?}", p);
        let std_ext = Path::new(p).extension().map(|n| n.to_str().unwrap().to_string());
        assert_eq!(path_extension(p, false), std_ext, "extension of {:?}", p);
        let std_parent = Path::new(p).parent().map(|n| n.to_path_buf());
        let ours = path_parent(p, false).map(|s| std::path::PathBuf::from(s));
        assert_eq!(ours, std_parent, "parent of {:?}", p);
    }
    assert_eq!(path_join("a", "b", false), "a/b");
    assert_eq!(path_join("a/", "b", false), "a/b");
    assert_eq!(path_join("a", "/b", false), "/b");
    assert_eq!(path_join("", "b", false), "b");
    assert_eq!(path_strip_prefix("/a/b/c", "/a", false), Some("b/c".to_string()));
    assert_eq!(path_strip_prefix("/a/bc", "/a/b", false), None);
    assert_eq!(path_strip_prefix("a/b", "/a", false), None);
}
