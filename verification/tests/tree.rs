use er_commander::tree::{TreeWalk, WalkAsk, WalkItem, WalkTold};

fn ok() -> WalkTold {
    WalkTold::Outcome(Ok(()))
}

fn item(name: &str, is_dir: bool) -> WalkTold {
    WalkTold::Item(Ok(Some(WalkItem { name: name.to_string(), is_dir })))
}

fn no_more() -> WalkTold {
    WalkTold::Item(Ok(None))
}

#[test]
fn walk_enters_directories_before_their_files() {
    let mut w = TreeWalk::new(true);
    assert_eq!(w.ask(), WalkAsk::Enter);
    assert_eq!(w.member_name(), "");
    assert_eq!(w.step(ok()), WalkAsk::Open);
    assert_eq!(w.step(ok()), WalkAsk::Next);
    assert_eq!(w.step(item("a.txt", false)), WalkAsk::Take);
    assert_eq!(w.member_name(), "a.txt");
    assert_eq!(w.step(ok()), WalkAsk::Next);
    assert_eq!(w.step(item("sub", true)), WalkAsk::Enter);
    assert_eq!(w.member_name(), "sub");
    assert_eq!(w.step(ok()), WalkAsk::Open);
    assert_eq!(w.step(ok()), WalkAsk::Next);
    assert_eq!(w.step(item("b.txt", false)), WalkAsk::Take);
    assert_eq!(w.member_name(), "sub/b.txt");
    assert_eq!(w.step(ok()), WalkAsk::Next);
    assert_eq!(w.step(no_more()), WalkAsk::Next);
    assert_eq!(w.step(item("c.txt", false)), WalkAsk::Take);
    assert_eq!(w.member_name(), "c.txt");
    assert_eq!(w.step(ok()), WalkAsk::Next);
    assert_eq!(w.step(no_more()), WalkAsk::End);
    assert_eq!(w.error, None);
}

#[test]
fn walk_leaves_the_top_out() {
    let mut w = TreeWalk::new(false);
    assert_eq!(w.ask(), WalkAsk::Open);
    assert_eq!(w.step(ok()), WalkAsk::Next);
    assert_eq!(w.step(no_more()), WalkAsk::End);
}

#[test]
fn walk_ends_at_a_failure() {
    for failing in 0..4 {
        let mut w = TreeWalk::new(true);
        let told = vec![ok(), ok(), item("x", false)];
        for t in told.into_iter().take(failing) {
            w.step(t);
        }
        let failure = "no room".to_string();
        let end = if w.ask() == WalkAsk::Next {
            w.step(WalkTold::Item(Err(failure)))
        } else {
            w.step(WalkTold::Outcome(Err(failure)))
        };
        assert_eq!(end, WalkAsk::End);
        assert_eq!(w.error, Some("no room".to_string()));
    }
}

#[test]
fn walk_heeds_only_what_was_asked_for() {
    let mut w = TreeWalk::new(true);
    assert_eq!(w.step(no_more()), WalkAsk::Enter);
    w.step(ok());
    w.step(ok());
    assert_eq!(w.step(ok()), WalkAsk::Next);
}

#[test]
fn member_names_have_slashes() {
    let mut w = TreeWalk::new(false);
    w.step(ok());
    w.step(item("a\\b", true));
    w.step(ok());
    w.step(ok());
    w.step(item("c", false));
    assert_eq!(w.member_name(), "a/b/c");
}
