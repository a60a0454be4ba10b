use er_commander::archive::ZipItem;
use er_commander::entry::{RawEntry, RawMetadata, SortColumn, SortDir};
use er_commander::panel::{ActivePanel, CursorAction, Focus, Listing, Panel, PathProbe};
use er_commander::path::DirPath;

fn unix(parts: &[&str]) -> DirPath {
    DirPath {
        root: "/".to_string(),
        parts: parts.iter().map(|p| p.to_string()).collect(),
        sep: '/',
    }
}

fn file(name: &str) -> RawEntry {
    RawEntry {
        name: name.to_string(),
        metadata: Some(RawMetadata {
            is_dir: false,
            len: 10,
            modified: None,
            readonly: false,
            attributes: 0,
        }),
    }
}

fn dir(name: &str) -> RawEntry {
    RawEntry {
        name: name.to_string(),
        metadata: Some(RawMetadata {
            is_dir: true,
            len: 0,
            modified: None,
            readonly: false,
            attributes: 0,
        }),
    }
}

fn items() -> Vec<RawEntry> {
    vec![file("b.txt"), dir("sub"), file("a.zip"), file("c.rar")]
}

fn sample() -> Panel {
    Panel::new(unix(&["home"]), vec![], Some(items()))
}

fn names(p: &Panel) -> Vec<String> {
    p.entries.iter().map(|e| e.name.clone()).collect()
}

#[test]
fn a_new_panel() {
    let p = sample();
    assert_eq!(names(&p), ["sub", "a.zip", "b.txt", "c.rar"]);
    assert_eq!(p.cursor, 0);
    assert!(p.selected.is_empty());
    assert_eq!(p.path_input, "/home");
    assert_eq!(p.total_rows(), 5);
    assert_eq!(p.up_offset(), 1);
    assert!(p.can_go_up());
    assert!(p.error.is_none());
    let root = Panel::new(unix(&[]), vec![], None);
    assert_eq!(root.total_rows(), 0);
    assert_eq!(root.up_offset(), 0);
    assert!(!root.can_go_up());
}

#[test]
fn the_cursor_stays_on_rows() {
    let mut p = sample();
    p.move_cursor(2);
    assert_eq!(p.cursor, 2);
    assert!(p.cursor_moved);
    p.move_cursor(100);
    assert_eq!(p.cursor, 4);
    p.move_cursor(-1000);
    assert_eq!(p.cursor, 0);
    p.move_cursor(isize::MAX);
    assert_eq!(p.cursor, 4);
    p.move_cursor(isize::MIN);
    assert_eq!(p.cursor, 0);
    p.move_cursor_to_end();
    assert_eq!(p.cursor, 4);
    p.move_cursor_to_start();
    assert_eq!(p.cursor, 0);
    let mut empty = Panel::new(unix(&[]), vec![], None);
    empty.move_cursor(1);
    empty.move_cursor_to_end();
    assert_eq!(empty.cursor, 0);
    assert!(!empty.cursor_moved);
}

#[test]
fn rows_at_the_cursor() {
    let mut p = sample();
    assert_eq!(p.entry_index_at_cursor(), None);
    assert!(p.entry_at_cursor().is_none());
    p.move_cursor(3);
    assert_eq!(p.entry_index_at_cursor(), Some(2));
    assert_eq!(p.entry_at_cursor().unwrap().name, "b.txt");
}

#[test]
fn selecting_with_the_space_bar() {
    let mut p = sample();
    p.toggle_selection_at_cursor();
    assert!(p.selected.is_empty());
    p.move_cursor(3);
    p.toggle_selection_at_cursor();
    assert_eq!(p.selected, [2]);
    assert_eq!(p.cursor, 3);
    p.move_cursor(-2);
    p.toggle_selection_at_cursor();
    assert_eq!(p.selected, [2, 0]);
    assert!(p.is_selected(0));
    assert_eq!(p.selected_names(), ["b.txt", "sub"]);
    p.toggle_selection_at_cursor();
    assert_eq!(p.selected, [2]);
    p.select_all();
    assert_eq!(p.selected, [0, 1, 2, 3]);
    p.deselect_all();
    assert!(p.selected.is_empty());
}

#[test]
fn what_an_operation_works_on() {
    let mut p = sample();
    assert!(p.effective_names().is_empty());
    p.move_cursor(2);
    assert_eq!(p.effective_names(), ["a.zip"]);
    assert_eq!(p.effective_paths()[0].text(), "/home/a.zip");
    p.selected = vec![3, 9];
    assert_eq!(p.effective_names(), ["c.rar"]);
    assert_eq!(p.selected_paths()[0].text(), "/home/c.rar");
}

#[test]
fn selecting_by_a_mask() {
    let mut p = sample();
    p.apply_mask("*.??*", true);
    assert_eq!(p.selected, [1, 2, 3]);
    p.apply_mask("*.txt", false);
    assert_eq!(p.selected, [1, 3]);
    p.apply_mask("*", true);
    assert_eq!(p.selected, [1, 3, 0, 2]);
}

#[test]
fn entering_and_going_up() {
    let mut p = sample();
    assert!(matches!(p.enter("sub"), Focus::Keep));
    assert_eq!(p.current_path.text(), "/home/sub");
    match p.go_up() {
        Some(Focus::Name(n)) => assert_eq!(n, "sub"),
        other => panic!("{:?}", other),
    }
    assert_eq!(p.current_path.text(), "/home");
    assert!(p.go_up().is_some());
    assert!(p.go_up().is_none());
}

#[test]
fn archives_as_directories() {
    let mut p = sample();
    p.enter_zip_archive(unix(&["home", "a.zip"]));
    assert_eq!(p.address_text(), "/home/a.zip::/");
    p.refresh(Listing::Archive(Ok(vec![
        ZipItem { name: "d/x.txt".to_string(), size: 1, is_dir: false },
        ZipItem { name: "y.txt".to_string(), size: 2, is_dir: false },
    ])));
    assert_eq!(names(&p), ["d", "y.txt"]);
    assert!(p.can_go_up());
    p.enter("d");
    assert_eq!(p.archive_location.as_ref().unwrap().internal_dir, "d/");
    p.refresh(Listing::Archive(Ok(vec![ZipItem {
        name: "d/x.txt".to_string(),
        size: 1,
        is_dir: false,
    }])));
    assert_eq!(names(&p), ["x.txt"]);
    match p.go_up() {
        Some(Focus::Name(n)) => assert_eq!(n, "d"),
        other => panic!("{:?}", other),
    }
    p.refresh(Listing::Archive(Err("poškozený".to_string())));
    assert!(p.entries.is_empty());
    assert_eq!(p.error.as_deref(), Some("poškozený"));
    match p.go_up() {
        Some(Focus::Name(n)) => assert_eq!(n, "a.zip"),
        other => panic!("{:?}", other),
    }
    assert!(p.archive_location.is_none());
    assert_eq!(p.current_path.text(), "/home");
}

#[test]
fn enter_on_the_row_at_the_cursor() {
    let mut p = sample();
    assert!(matches!(p.activate_cursor(), Some(CursorAction::Reload(Focus::Name(_)))));
    assert_eq!(p.current_path.text(), "/");
    let mut p = sample();
    p.move_cursor(1);
    assert!(matches!(p.activate_cursor(), Some(CursorAction::Reload(Focus::Keep))));
    assert_eq!(p.current_path.text(), "/home/sub");
    let mut p = sample();
    p.move_cursor(2);
    assert!(matches!(p.activate_cursor(), Some(CursorAction::Reload(Focus::Keep))));
    assert_eq!(p.archive_location.as_ref().unwrap().archive_path.text(), "/home/a.zip");
    p.refresh(Listing::Archive(Ok(vec![ZipItem {
        name: "f".to_string(),
        size: 1,
        is_dir: false,
    }])));
    p.move_cursor_to_end();
    assert!(p.activate_cursor().is_none());
    let mut p = sample();
    p.move_cursor(4);
    match p.activate_cursor() {
        Some(CursorAction::OpenExternal(path)) => assert_eq!(path.text(), "/home/c.rar"),
        other => panic!("{:?}", other),
    }
}

#[test]
fn double_clicks() {
    let mut p = sample();
    assert!(matches!(p.double_click_row(1), Some(CursorAction::Reload(_))));
    assert_eq!(p.cursor, 2);
    assert!(p.archive_location.is_some());
    let mut p = sample();
    assert!(matches!(p.double_click_row(2), Some(CursorAction::OpenExternal(_))));
    assert_eq!(p.cursor, 3);
    p.click_row(0);
    assert_eq!(p.cursor, 1);
    p.drag_row(2);
    assert_eq!(p.selected, [2]);
    p.selected = vec![0, 2];
    p.drag_row(2);
    assert_eq!(p.selected, [0, 2]);
}

#[test]
fn reading_a_listing_again() {
    let mut p = sample();
    p.select_all();
    p.move_cursor_to_end();
    p.refresh(Listing::Directory(Some(vec![file("only")])));
    assert!(p.selected.is_empty());
    assert_eq!(p.cursor, 1);
    p.refresh(Listing::Directory(None));
    assert_eq!(p.cursor, 0);
    assert!(p.entries.is_empty());
    p.refresh(Listing::Directory(Some(items())));
    p.apply_focus(&Focus::Name("b.txt".to_string()));
    assert_eq!(p.cursor, 3);
    p.apply_focus(&Focus::Name("nic".to_string()));
    assert_eq!(p.cursor, 3);
    p.apply_focus(&Focus::Select("sub".to_string()));
    assert_eq!(p.cursor, 1);
    assert_eq!(p.selected, [0]);
    p.apply_focus(&Focus::Top);
    assert_eq!(p.cursor, 0);
    p.apply_focus(&Focus::Keep);
    assert_eq!(p.cursor, 0);
    assert_eq!(p.position("c.rar"), Some(3));
}

#[test]
fn typing_a_path() {
    let mut p = sample();
    p.path_input = "  /etc ".to_string();
    assert_eq!(p.typed_path(), "/etc");
    let missing = PathProbe { path: unix(&["etc"]), exists: false, is_dir: false };
    assert_eq!(
        p.navigate_to_input(&missing).unwrap_err(),
        "Cesta neexistuje nebo není dostupná: /etc"
    );
    let plain = PathProbe { path: unix(&["etc"]), exists: true, is_dir: false };
    assert_eq!(p.navigate_to_input(&plain).unwrap_err(), "Zadaná cesta není adresář.");
    assert_eq!(p.current_path.text(), "/home");
    let there = PathProbe { path: unix(&["etc"]), exists: true, is_dir: true };
    assert!(p.navigate_to_input(&there).is_ok());
    assert_eq!(p.current_path.text(), "/etc");
    p.go_to(&unix(&["tmp"]));
    assert_eq!(p.current_path.text(), "/tmp");
}

#[test]
fn ordering_by_columns() {
    let mut p = sample();
    p.sort_by(SortColumn::Name);
    assert!(p.sort_dir == SortDir::Desc);
    p.sort_by(SortColumn::Size);
    assert!(p.sort_col == SortColumn::Size && p.sort_dir == SortDir::Asc);
}

#[test]
fn renaming_in_place() {
    let mut p = sample();
    p.begin_rename();
    assert_eq!(p.inline_rename_idx, None);
    p.move_cursor(3);
    p.begin_rename();
    assert_eq!(p.inline_rename_idx, Some(2));
    assert_eq!(p.inline_rename_buf, "b.txt");
    assert!(p.finish_rename().is_none());
    assert_eq!(p.inline_rename_idx, None);
    p.begin_rename();
    p.inline_rename_buf = "c.txt".to_string();
    let q = p.finish_rename().unwrap();
    assert_eq!((q.dir.text().as_str(), q.old_name.as_str(), q.new_name.as_str()), ("/home", "b.txt", "c.txt"));
    p.begin_rename();
    p.inline_rename_buf = String::new();
    assert!(p.finish_rename().is_none());
    p.begin_rename();
    p.cancel_rename();
    assert_eq!(p.inline_rename_idx, None);
}

#[test]
fn sizes_of_directories() {
    let mut p = sample();
    p.select_all();
    let dirs = p.uncounted_dirs();
    assert_eq!(dirs.len(), 1);
    assert_eq!(dirs[0].text(), "/home/sub");
    p.set_dir_size(&dirs[0], 123);
    assert_eq!(p.entries[0].dir_size, Some(123));
    assert_eq!(p.entries[1].dir_size, None);
    assert!(p.uncounted_dirs().is_empty());
}

#[test]
fn the_other_panel() {
    assert!(ActivePanel::Left.other() == ActivePanel::Right);
    assert!(ActivePanel::Right.other().other() == ActivePanel::Right);
}
