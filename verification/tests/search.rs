use er_commander::path::DirPath;
use er_commander::search::{Search, SearchBox, SearchMsg, Verdict, MAX_SEARCHED, REPORT_EVERY};

fn unix(parts: &[&str]) -> DirPath {
    DirPath {
        root: "/".to_string(),
        parts: parts.iter().map(|p| p.to_string()).collect(),
        sep: '/',
    }
}

#[test]
fn names_and_contents() {
    let mut s = Search::new("ŽLUŤ".to_string(), String::new());
    assert_eq!(s.visit("x žluť.txt"), (None, Verdict::Found));
    assert_eq!(s.visit("x.txt"), (None, Verdict::Pass));
    let mut s = Search::new(String::new(), "Hello".to_string());
    assert_eq!(s.visit("any"), (None, Verdict::LookInside));
    assert!(s.text_found("say HELLO!"));
    assert!(!s.text_found("say hell"));
    assert!(s.may_read(Some(MAX_SEARCHED)));
    assert!(!s.may_read(Some(MAX_SEARCHED + 1)));
    assert!(!s.may_read(None));
    assert_eq!(MAX_SEARCHED, 10 * 1024 * 1024);
}

#[test]
fn an_empty_search_finds_everything() {
    let mut s = Search::new(String::new(), String::new());
    for i in 1..=2 * REPORT_EVERY {
        let (report, verdict) = s.visit("f");
        assert_eq!(verdict, Verdict::Found);
        assert_eq!(report, if i % REPORT_EVERY == 0 { Some(i) } else { None });
    }
    assert_eq!(REPORT_EVERY, 200);
}

#[test]
fn the_search_window() {
    let mut b = SearchBox::new(unix(&[]));
    b.name = "x".to_string();
    b.open(&unix(&["home"]));
    assert!(b.show && !b.running);
    assert_eq!(b.name, "");
    assert_eq!(b.root.text(), "/home");
    b.start();
    assert!(b.running && b.awaited);
    assert!(!b.apply(SearchMsg::Found(unix(&["home", "a"]))));
    b.apply(SearchMsg::Scanned(200));
    assert_eq!((b.results.len(), b.scanned), (1, 200));
    assert!(b.apply(SearchMsg::Finished));
    b.end_poll(false);
    assert!(!b.running && !b.awaited);
}
