use arceos_tools::text::{
    chars_eq, chars_of, contains_bytes, contains_chars, first_line, split_first, str_eq, trim,
};

#[test]
fn trims_unicode_white_space() {
    let t: String = trim("  main\n").into_iter().collect();
    assert_eq!(t, "main");
    let t: String = trim("\u{3000}\t x y \u{a0}").into_iter().collect();
    assert_eq!(t, "x y");
    assert!(trim(" \n\t").is_empty());
    assert!(trim("").is_empty());
    for s in ["  a b  ", "\u{2028}q\u{85}", "plain", "\r\n"] {
        let once: String = trim(s).into_iter().collect();
        assert_eq!(once, s.trim());
        let twice: String = trim(&once).into_iter().collect();
        assert_eq!(twice, once);
    }
}

#[test]
fn first_line_like_lines() {
    for s in ["gcc 1.0\nmore", "one\r\ntwo", "single", "\nafter", "cr\r", "x\r\r\n"] {
        assert_eq!(first_line(s), s.lines().next().map(|l| l.to_string()));
    }
    assert_eq!(first_line(""), None);
}

#[test]
fn split_first_like_split() {
    for s in ["hello_world", "a_b_c", "plain", "_x", ""] {
        assert_eq!(split_first(s, '_'), s.split('_').next().unwrap());
    }
}

#[test]
fn equality_and_search() {
    assert!(str_eq("abc", "abc"));
    assert!(!str_eq("abc", "abd"));
    assert!(!str_eq("ab", "abc"));
    assert!(chars_eq(&chars_of("é!"), &vec!['é', '!']));
    assert!(contains_bytes(b"xxabcxx", b"abc"));
    assert!(!contains_bytes(b"ab", b"abc"));
    assert!(contains_bytes(b"ab", b""));
    assert!(contains_chars(&chars_of("Is a directory!"), &chars_of("directory")));
    assert!(!contains_chars(&chars_of("Is a dir"), &chars_of("directory")));
}
