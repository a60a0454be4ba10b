use er_commander::glob::glob_match;

#[test]
fn stars_and_question_marks() {
    assert!(glob_match("*", ""));
    assert!(glob_match("*", "film.mkv"));
    assert!(glob_match("*.mkv", "film.mkv"));
    assert!(!glob_match("*.mkv", "film.mkv.txt"));
    assert!(glob_match("film*", "film"));
    assert!(glob_match("*.mp?", "a.mp3"));
    assert!(!glob_match("*.mp?", "a.mp"));
    assert!(glob_match("a**b", "ab"));
    assert!(glob_match("?", "č"));
    assert!(!glob_match("?", ""));
    assert!(glob_match("", ""));
    assert!(!glob_match("", "a"));
    assert!(glob_match("a.b", "a.b"));
    assert!(!glob_match("a.b", "aXb"));
    assert!(!glob_match("A", "a"));
    assert!(glob_match("*a*b*", "xxaxxbxx"));
}
