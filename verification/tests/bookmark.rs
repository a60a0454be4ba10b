use er_commander::bookmark::BookmarkBox;
use er_commander::panel::ActivePanel;
use er_commander::path::DirPath;

fn unix(parts: &[&str]) -> DirPath {
    DirPath {
        root: "/".to_string(),
        parts: parts.iter().map(|p| p.to_string()).collect(),
        sep: '/',
    }
}

fn sample() -> BookmarkBox {
    let mut b = BookmarkBox::new(vec![]);
    b.add_path(&unix(&["a"]), None);
    b.add_path(&unix(&["b"]), Some(&unix(&["c"])));
    b
}

fn names(b: &BookmarkBox) -> Vec<String> {
    b.list.iter().map(|m| m.name.clone()).collect()
}

#[test]
fn adding_and_removing_bookmarks() {
    let mut b = sample();
    assert_eq!(names(&b), ["a", "b"]);
    assert!(b.list[0].right.is_none());
    assert_eq!(b.list[1].right.as_ref().unwrap().text(), "/c");
    assert!(!b.remove_bookmark(2));
    assert!(b.remove_bookmark(0));
    assert_eq!(names(&b), ["b"]);
    b.open(ActivePanel::Right);
    assert!(b.show && b.target == ActivePanel::Right);
    b.edit_idx = Some(0);
    b.close();
    assert!(!b.show && b.edit_idx.is_none());
}

#[test]
fn removing_the_edited_bookmark() {
    let mut b = sample();
    b.begin_edit(1);
    b.remove_bookmark(1);
    assert!(b.edit_idx.is_none());
}

#[test]
fn moving_bookmarks() {
    let mut b = sample();
    assert!(!b.move_up(0));
    assert!(b.move_up(1));
    assert_eq!(names(&b), ["b", "a"]);
    assert!(b.move_down(0));
    assert_eq!(names(&b), ["a", "b"]);
    assert!(!b.move_down(1));
    assert!(!b.move_down(7));
}

#[test]
fn editing_bookmarks() {
    let mut b = sample();
    b.begin_edit(1);
    assert_eq!((b.edit_name.as_str(), b.edit_left.as_str(), b.edit_right.as_str()), ("b", "/b", "/c"));
    b.edit_name = " nový ".to_string();
    b.edit_left = " /x ".to_string();
    b.edit_right = "  ".to_string();
    assert_eq!(b.typed_paths(), ("/x".to_string(), String::new()));
    assert!(b.save_edit(unix(&["x"]), DirPath::empty('/')));
    assert_eq!(b.list[1].name, "nový");
    assert_eq!(b.list[1].left.text(), "/x");
    assert!(b.list[1].right.is_none());
    assert!(b.edit_idx.is_none());
    assert!(!b.save_edit(unix(&["x"]), unix(&["y"])));
    b.begin_edit(0);
    assert_eq!(b.edit_right, "");
    b.cancel_edit();
    assert!(b.edit_idx.is_none());
}

#[test]
fn picking_a_bookmark_closes_the_window() {
    let mut b = sample();
    b.open(ActivePanel::Left);
    let m = b.pick(1);
    assert_eq!(m.name, "b");
    assert!(!b.show);
}
