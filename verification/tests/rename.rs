use er_commander::rename::{capitalize_words, changed_names, RenameBox, RenameCase};

fn names(v: &[&str]) -> Vec<String> {
    v.iter().map(|s| s.to_string()).collect()
}

fn preview(b: &RenameBox, v: &[&str]) -> Vec<String> {
    let list = names(v);
    assert!(b.counter_fits(list.len()));
    let lines = b.rename_preview(&list).unwrap();
    for (i, line) in lines.iter().enumerate() {
        assert_eq!(line.0, v[i]);
    }
    lines.into_iter().map(|l| l.1).collect()
}

#[test]
fn an_empty_plan_keeps_names() {
    let b = RenameBox::new();
    assert_eq!(preview(&b, &["A.txt", "b"]), ["A.txt", "b"]);
}

#[test]
fn masks_with_tokens() {
    let mut b = RenameBox::new();
    b.mask = "[N]_[C].[E]".to_string();
    assert_eq!(preview(&b, &["a.txt", "b.tar.gz", "c"]), ["a_01.txt", "b.tar_02.gz", "c_03."]);
    b.counter_start = 10;
    b.counter_step = -5;
    b.counter_width = 3;
    assert_eq!(preview(&b, &["a.x", "b.x", "c.x", "d.x"]), ["a_010.x", "b_005.x", "c_000.x", "d_-05.x"]);
    b.counter_width = 100;
    assert_eq!(preview(&b, &["a.x"]), ["a_00000010.x"]);
    b.mask = "   ".to_string();
    assert_eq!(preview(&b, &["a.x"]), ["a.x"]);
}

#[test]
fn plain_replacement() {
    let mut b = RenameBox::new();
    b.pattern = "a".to_string();
    b.replacement = "$1".to_string();
    assert_eq!(preview(&b, &["banana"]), ["b$1n$1n$1"]);
}

#[test]
fn regular_expressions() {
    let mut b = RenameBox::new();
    b.use_regex = true;
    assert_eq!(preview(&b, &["x"]), ["x"]);
    b.pattern = "(\\d+)-(\\w+)".to_string();
    b.replacement = "$2-$1".to_string();
    assert_eq!(preview(&b, &["12-ab.txt", "none"]), ["ab-12.txt", "none"]);
    b.pattern = "(".to_string();
    let e = b.rename_preview(&names(&["x"])).unwrap_err();
    assert!(e.starts_with("Neplatný regex: "));
    assert!(e.len() > "Neplatný regex: ".len());
}

#[test]
fn letters_are_changed() {
    let mut b = RenameBox::new();
    b.case = RenameCase::Upper;
    assert_eq!(preview(&b, &["straße ž.txt"]), ["STRASSE Ž.TXT"]);
    b.case = RenameCase::Lower;
    assert_eq!(preview(&b, &["ŽLUŤ.TXT"]), ["žluť.txt"]);
    b.case = RenameCase::Capitalize;
    assert_eq!(preview(&b, &["můj soubor-x.TXT"]), ["Můj Soubor-X.Txt"]);
    assert_eq!(b.change_case("aB".to_string()), "Ab");
    assert_eq!(capitalize_words("hello world_foo 2nd"), "Hello World_Foo 2nd");
    assert_eq!(capitalize_words(""), "");
    assert_eq!(capitalize_words("don't stop"), "Don't Stop");
    assert_eq!(capitalize_words("a-b.c(d) ČESKÝ ßx"), "A-B.C(d) Český SSx");
    let once = capitalize_words("MIXED case_text-x.TXT");
    assert_eq!(once, "Mixed Case_Text-X.Txt");
    assert_eq!(capitalize_words(&once), once);
    assert_eq!(capitalize_words(&once.to_uppercase()), once);
}

#[test]
fn counters_that_do_not_fit() {
    let mut b = RenameBox::new();
    b.mask = "[C]".to_string();
    b.counter_start = i64::MAX;
    assert!(b.counter_fits(1));
    assert!(!b.counter_fits(2));
    b.mask = String::new();
    assert!(b.counter_fits(2));
}

#[test]
fn only_changed_names_are_renamed() {
    let lines = vec![
        ("a".to_string(), "a".to_string()),
        ("b".to_string(), "c".to_string()),
    ];
    assert_eq!(changed_names(lines), [("b".to_string(), "c".to_string())]);
}

#[test]
fn the_rename_window() {
    let mut b = RenameBox::new();
    b.error = Some("x".to_string());
    b.open();
    assert!(b.show && b.error.is_none());
    b.pattern = "p".to_string();
    b.rename_failed("old", "odepřeno");
    assert_eq!(b.error.as_deref(), Some("old: odepřeno"));
    b.finish();
    assert!(b.show);
    b.error = None;
    b.finish();
    assert!(!b.show && b.pattern.is_empty());
    b.open();
    b.error = Some("x".to_string());
    b.cancel();
    assert!(!b.show && b.error.is_none());
}
