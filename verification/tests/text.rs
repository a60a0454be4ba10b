use er_commander::text::{
    chars_of, contains, copy_texts, ends, find_char, is_whitespace, join, lines, reads, replace,
    replace_char, rfind_char, same, split, starts, strip_prefix, text_from, text_of, trim,
    trim_end_char, trim_start_char,
};

#[test]
fn white_space_is_that_of_std() {
    for n in 0u32..=0x10ffff {
        if let Some(c) = char::from_u32(n) {
            assert_eq!(is_whitespace(c), c.is_whitespace(), "{:x}", n);
        }
    }
}

#[test]
fn trimming() {
    for s in ["", " ", "a", "  a b ", "\u{a0}x\u{3000}", "\tč\r\n", "   "] {
        assert_eq!(trim(s), s.trim());
    }
    assert_eq!(trim_start_char("vv1.2v", 'v'), "1.2v");
    assert_eq!(trim_end_char("a/b//", '/'), "a/b");
    assert_eq!(trim_end_char("///", '/'), "");
}

#[test]
fn lines_are_those_of_std() {
    for s in ["", "\n", "a", "a\n", "a\r\nb", "a\rb\n\nc", "\r\n\r\n", "x\ny\r", "\r"] {
        let expected: Vec<String> = s.lines().map(|l| l.to_string()).collect();
        assert_eq!(lines(s), expected, "{:?}", s);
    }
}

#[test]
fn splitting_and_joining() {
    for s in ["", "a", "a.b", ".a..b.", "..."] {
        let expected: Vec<String> = s.split('.').map(|l| l.to_string()).collect();
        assert_eq!(split(s, '.'), expected, "{:?}", s);
        assert_eq!(join(&expected, "."), s);
    }
    assert_eq!(join(&vec![], "/"), "");
    assert_eq!(copy_texts(&vec!["č".to_string()]), vec!["č".to_string()]);
}

#[test]
fn replacing() {
    for (s, from, to) in
        [("aaa", "aa", "b"), ("abcabc", "bc", ""), ("x", "y", "z"), ("[N]_[N]", "[N]", "[N][N]")]
    {
        assert_eq!(replace(s, from, to), s.replace(from, to), "{} {} {}", s, from, to);
    }
    assert_eq!(replace_char("a\\b\\c", '\\', '/'), "a/b/c");
}

#[test]
fn searching_in_texts() {
    assert!(contains("příliš", "íli"));
    assert!(contains("abc", ""));
    assert!(!contains("abc", "abd"));
    assert!(starts("LEFT=/x", "LEFT="));
    assert!(!starts("LEF", "LEFT="));
    assert!(ends("a.zip", ".zip"));
    assert!(!ends("zip", ".zip"));
    assert_eq!(strip_prefix("dir/x", "dir/"), Some("x".to_string()));
    assert_eq!(strip_prefix("dir/x", "x"), None);
    let v = chars_of("a.b.c");
    assert_eq!(find_char(&v, '.', 0), 1);
    assert_eq!(find_char(&v, '.', 2), 3);
    assert_eq!(find_char(&v, 'z', 0), 5);
    assert_eq!(rfind_char(&v, '.'), Some(3));
    assert_eq!(rfind_char(&v, 'z'), None);
    assert!(reads(&v, &chars_of(".b"), 1));
    assert_eq!(text_of(&v, 2, 4), "b.");
    assert_eq!(text_from(&v), "a.b.c");
    assert!(same("ž", "ž"));
    assert!(!same("ž", "z"));
}
