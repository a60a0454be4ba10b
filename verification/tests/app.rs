use er_commander::app::FileManagerApp;
use er_commander::bookmark::Bookmark;
use er_commander::entry::{DirSort, RawEntry, RawMetadata, SortColumn, SortDir};
use er_commander::file_op::{OpEffect, OpKind, OpMsg, ERR_CANCEL, ERR_SKIP};
use er_commander::frame::{start_paths, ChangeKind, ContextAction, FsEvent, PanelStart};
use er_commander::hash::HashMsg;
use er_commander::jobs::{Command, Order, PendingAction};
use er_commander::mouse::{menu_offer, MenuOffer};
use er_commander::panel::{ActivePanel, Focus, Listing, PathProbe};
use er_commander::path::DirPath;
use er_commander::search::SearchMsg;
use er_commander::shortcuts::{Dialog, DialogKeys, FnKey, Keys, NavKey, NavPressed};
use er_commander::state_file::{load_state, no_state, path_in_line};
use er_commander::text::lines;
use er_commander::update::{UpdateCheckResult, UpdateReply, UpdateState};
use er_commander::view::StatusMsg;

fn unix(parts: &[&str]) -> DirPath {
    DirPath {
        root: "/".to_string(),
        parts: parts.iter().map(|p| p.to_string()).collect(),
        sep: '/',
    }
}

fn item(name: &str, is_dir: bool) -> RawEntry {
    RawEntry {
        name: name.to_string(),
        metadata: Some(RawMetadata { is_dir, len: 10, modified: None, readonly: false, attributes: 0 }),
    }
}

fn start(parts: &[&str]) -> PanelStart {
    PanelStart {
        path: unix(parts),
        drives: vec!["/".to_string()],
        items: Some(vec![item("b.txt", false), item("sub", true), item("a.zip", false), item(".h", false)]),
    }
}

fn app() -> FileManagerApp {
    FileManagerApp::new(unix(&["home"]), no_state(), start(&["left"]), start(&["right"]))
}

fn status(a: &FileManagerApp) -> String {
    match &a.op_status {
        Some(StatusMsg::Info(s)) => format!("I:{}", s),
        Some(StatusMsg::Warn(s)) => format!("W:{}", s),
        Some(StatusMsg::Error(s)) => format!("E:{}", s),
        None => String::new(),
    }
}

fn texts(v: &[DirPath]) -> Vec<String> {
    v.iter().map(|p| p.text()).collect()
}

fn enter_archive(a: &mut FileManagerApp) {
    a.left.enter_zip_archive(unix(&["left", "a.zip"]));
    a.left.refresh(Listing::Archive(Ok(vec![er_commander::archive::ZipItem {
        name: "f.txt".to_string(),
        size: 3,
        is_dir: false,
    }])));
    a.left.cursor = 1;
}

const NO_KEYS: Keys = Keys {
    alt: false,
    ctrl: false,
    shift: false,
    f2: false,
    f3: false,
    f4: false,
    f5: false,
    f6: false,
    f7: false,
    f8: false,
    a: false,
    c: false,
    e: false,
    h: false,
    m: false,
    n: false,
    plus: false,
    minus: false,
};

const NO_NAV: NavPressed = NavPressed {
    delete: false,
    up: false,
    down: false,
    page_up: false,
    page_down: false,
    home: false,
    end: false,
    space: false,
    enter: false,
};

#[test]
fn the_program_at_the_start() {
    let a = app();
    assert!(a.active == ActivePanel::Left);
    assert_eq!(a.left.current_path.text(), "/left");
    assert_eq!(a.right.current_path.text(), "/right");
    assert_eq!(a.left.entries.len(), 3);
    assert!(a.dark_mode && !a.show_hidden);
    assert_eq!(a.mask.mask, "*.");
    assert_eq!(a.rename.counter_width, 2);
    assert!(!a.any_dialog_open());
    assert!(!a.needs_repaint());
    assert_eq!(a.search.root.text(), "/home");
    assert!(a.open_dialog().is_none());
    let (l, r) = start_paths(&no_state(), &unix(&["home"]));
    assert_eq!((l.text().as_str(), r.text().as_str()), ("/home", "/home"));
}

#[test]
fn the_program_goes_on_where_it_ended() {
    let mut a = app();
    a.left.sort_by(SortColumn::Size);
    a.right.sort_by(SortColumn::Name);
    a.change_dir_sort(DirSort::FirstByName);
    a.change_show_hidden(true);
    a.change_theme(false);
    a.external_editor = "vim".to_string();
    a.bookmarks.target = ActivePanel::Right;
    a.add_bookmark_current();
    let content = a.save_state();
    let probes = lines(&content)
        .iter()
        .map(|l| {
            path_in_line(l).map(|p| PathProbe {
                path: unix(&p.split('/').filter(|s| !s.is_empty()).collect::<Vec<_>>()),
                exists: true,
                is_dir: true,
            })
        })
        .collect();
    let saved = load_state(&content, &probes);
    let (l, r) = start_paths(&saved, &unix(&["home"]));
    let left = PanelStart { path: l, drives: vec![], items: Some(vec![item(".h", false)]) };
    let right = PanelStart { path: r, drives: vec![], items: None };
    let b = FileManagerApp::new(unix(&["home"]), saved, left, right);
    assert_eq!(b.save_state(), content);
    assert!(b.left.sort_col == SortColumn::Size);
    assert!(b.right.sort_dir == SortDir::Desc);
    assert!(b.left.show_hidden && b.show_hidden && !b.dark_mode);
    assert!(b.right.dir_sort == DirSort::FirstByName);
    assert_eq!(b.left.entries.len(), 1);
    assert_eq!(b.bookmarks.list[0].left.text(), "/right");
}

#[test]
fn copying_asks_first() {
    let mut a = app();
    assert!(matches!(a.start_copy(), Command::Nothing));
    assert!(!a.copy.show);
    a.left.cursor = 3;
    a.start_copy();
    assert!(a.copy.show && a.copy.kind == OpKind::Copy);
    assert_eq!(texts(&a.copy.targets), ["/left/b.txt"]);
    assert_eq!(a.copy.dst.text(), "/right");
    assert_eq!(a.copy.new_name, "b.txt");
    a.copy.new_name = " c.txt ".to_string();
    let job = match a.confirm_copy_move() {
        Command::ProbeFiles(job) => job,
        other => panic!("{:?}", other),
    };
    assert!(!a.copy.show && a.copy.targets.is_empty());
    assert_eq!(job.dst_name.as_deref(), Some("c.txt"));
    match a.begin_copy_move(job, &vec![false]) {
        Command::Run(Order::Files { kind, files, dst, overwrite, dst_name }) => {
            assert!(kind == OpKind::Copy && overwrite);
            assert_eq!(texts(&files), ["/left/b.txt"]);
            assert_eq!(dst.unwrap().text(), "/right");
            assert_eq!(dst_name.as_deref(), Some("c.txt"));
        }
        other => panic!("{:?}", other),
    }
    assert!(a.op.running && a.needs_repaint());
    assert_eq!(status(&a), "I:Kopírování...");
}

#[test]
fn a_new_name_is_looked_for_and_kept() {
    let mut a = app();
    a.left.cursor = 3;
    a.start_copy();
    a.copy.new_name = "c.txt".to_string();
    let job = match a.confirm_copy_move() {
        Command::ProbeFiles(job) => job,
        other => panic!("{:?}", other),
    };
    let targets = job.targets();
    assert_eq!(targets.len(), 1);
    assert_eq!(targets[0].as_ref().unwrap().text(), "/right/c.txt");
    assert!(matches!(a.begin_copy_move(job, &vec![true]), Command::Nothing));
    assert_eq!(a.pending.conflicts, ["c.txt"]);
    match a.resolve_pending(true) {
        Command::Run(Order::Files { files, overwrite, dst_name, .. }) => {
            assert!(overwrite);
            assert_eq!(texts(&files), ["/left/b.txt"]);
            assert_eq!(dst_name.as_deref(), Some("c.txt"));
        }
        other => panic!("{:?}", other),
    }
}

#[test]
fn existing_targets_are_asked_about() {
    let mut a = app();
    a.left.selected = vec![0, 2];
    a.start_move();
    assert!(a.copy.kind == OpKind::Move);
    assert_eq!(a.copy.new_name, "");
    let job = match a.confirm_copy_move() {
        Command::ProbeFiles(job) => job,
        other => panic!("{:?}", other),
    };
    assert!(matches!(a.begin_copy_move(job, &vec![true, false]), Command::Nothing));
    assert_eq!(a.pending.conflicts, ["sub"]);
    assert!(matches!(a.pending.action, Some(PendingAction::FsOp(_))));
    assert!(!a.op.running);
    assert!(a.open_dialog() == Some(Dialog::Overwrite));
    a.dialog_move(Dialog::Overwrite, false, true);
    match a.dialog_enter(Dialog::Overwrite, false) {
        Command::Run(Order::Files { kind, overwrite, .. }) => {
            assert!(kind == OpKind::Move && !overwrite);
        }
        other => panic!("{:?}", other),
    }
    assert!(a.pending.action.is_none());
    assert_eq!(status(&a), "I:Přesun...");
    assert!(matches!(a.resolve_pending(true), Command::Nothing));
}

#[test]
fn archives_stay_untouched() {
    let mut a = app();
    enter_archive(&mut a);
    a.start_move();
    assert!(!a.copy.show);
    assert_eq!(status(&a), "E:Přesun uvnitř archivu není podporovaný.");
    a.request_delete();
    assert!(!a.delete.show);
    assert_eq!(status(&a), "E:Mazání uvnitř archivu není podporované.");
    let job = match a.start_copy() {
        Command::ProbeExtract(job) => job,
        other => panic!("{:?}", other),
    };
    assert_eq!(job.names, ["f.txt"]);
    assert_eq!(job.archive_path.text(), "/left/a.zip");
    assert!(matches!(
        a.begin_extract(job, &vec![true]),
        Command::Nothing
    ));
    match a.resolve_pending(true) {
        Command::Run(Order::Extract { overwrite, .. }) => assert!(overwrite),
        other => panic!("{:?}", other),
    }
    assert_eq!(status(&a), "I:Rozbaluji ZIP...");
    assert!(a.apply_bulk_rename().is_none());
    assert_eq!(a.rename.error.as_deref(), Some("Přejmenování uvnitř archivu není podporované."));
}

#[test]
fn deleting_what_was_asked() {
    let mut a = app();
    a.left.selected = vec![0, 1];
    a.request_delete();
    assert_eq!(texts(&a.delete.targets), ["/left/sub", "/left/a.zip"]);
    a.dialog_move(Dialog::Delete, false, true);
    assert_eq!(a.delete.focus, 1);
    a.dialog_move(Dialog::Delete, false, true);
    assert_eq!(a.delete.focus, 1);
    a.dialog_move(Dialog::Delete, true, false);
    a.dialog_move(Dialog::Delete, true, false);
    assert_eq!(a.delete.focus, 0);
    match a.dialog_enter(Dialog::Delete, false) {
        Command::Run(Order::Files { kind, files, dst, .. }) => {
            assert!(kind == OpKind::Delete && dst.is_none());
            assert_eq!(texts(&files), ["/left/sub", "/left/a.zip"]);
        }
        other => panic!("{:?}", other),
    }
    assert_eq!(status(&a), "I:Mazání...");
    let mut a = app();
    a.left.selected = vec![0];
    a.request_delete();
    a.delete.focus = 1;
    assert!(matches!(a.dialog_enter(Dialog::Delete, false), Command::Nothing));
    assert!(!a.delete.show && a.delete.targets.is_empty());
}

#[test]
fn packing_asks_first() {
    let mut a = app();
    a.start_zip_pack();
    assert_eq!(status(&a), "W:Nejsou označeny žádné soubory.");
    a.left.selected = vec![2];
    a.start_zip_pack();
    assert!(a.pack.show);
    assert_eq!(a.pack.name, "b.zip");
    assert_eq!(a.pack.dst.text(), "/right");
    a.pack.name = "x".to_string();
    a.pack.focus = 1;
    match a.dialog_enter(Dialog::Pack, true) {
        Command::Run(Order::Pack { files, dst, name }) => {
            assert_eq!(texts(&files), ["/left/b.txt"]);
            assert_eq!((dst.text().as_str(), name.as_str()), ("/right", "x.zip"));
        }
        other => panic!("{:?}", other),
    }
    assert_eq!(status(&a), "I:Balím ZIP...");
    assert_eq!(a.op.total, 1);
}

#[test]
fn messages_of_an_operation() {
    let mut a = app();
    a.start_op("Mazání", 2);
    let wait = OpMsg::ErrorWait { file: "f".to_string(), error: "e".to_string() };
    assert!(a.poll_op_progress(wait) == OpEffect::Waiting);
    assert!(a.open_dialog() == Some(Dialog::OpError));
    a.op.err_focus = 1;
    match a.dialog_enter(Dialog::OpError, false) {
        Command::Answer { answer, stop } => assert!(answer == ERR_SKIP && !stop),
        other => panic!("{:?}", other),
    }
    a.poll_op_progress(OpMsg::ErrorWait { file: "f".to_string(), error: "e".to_string() });
    match a.dialog_escape(Dialog::OpError) {
        Command::Answer { answer, stop } => assert!(answer == ERR_CANCEL && stop),
        other => panic!("{:?}", other),
    }
    assert!(a.poll_op_progress(OpMsg::Error("stop".to_string())) == OpEffect::Over);
    assert_eq!(status(&a), "E:Chyba: stop");
    a.op.end_poll(false);
    assert!(a.open_dialog() == Some(Dialog::Progress));
    assert!(matches!(a.dialog_enter(Dialog::Progress, false), Command::Nothing));
    assert!(!a.op.show);
    a.start_op("Mazání", 2);
    a.poll_op_progress(OpMsg::Finished);
    assert_eq!(status(&a), "I:Hotovo.");
    assert!(matches!(a.answer_op_error(2), Command::Answer { stop: true, .. }));
}

#[test]
fn searching_for_files() {
    let mut a = app();
    a.open_search_dialog();
    assert!(a.search.show);
    assert_eq!(a.search.root.text(), "/left");
    assert!(!a.start_search(false));
    assert_eq!(status(&a), "E:Zadaný adresář pro hledání neexistuje.");
    a.poll_search(vec![SearchMsg::Finished]);
    assert!(a.start_search(true));
    assert!(a.needs_repaint());
    a.poll_search(vec![SearchMsg::Found(unix(&["left", "x"])), SearchMsg::Scanned(200)]);
    assert!(a.search.running);
    a.poll_search(vec![SearchMsg::Finished, SearchMsg::Found(unix(&["left", "y"]))]);
    assert!(!a.search.running && !a.search.awaited);
    assert_eq!(texts(&a.search.results), ["/left/x", "/left/y"]);
    match a.jump_to_search_result(&unix(&["etc", "x"])) {
        Command::Reload { side, focus: Focus::Select(name) } => {
            assert!(side == ActivePanel::Left);
            assert_eq!(name, "x");
        }
        other => panic!("{:?}", other),
    }
    assert!(!a.search.show);
    assert_eq!(a.left.current_path.text(), "/etc");
    assert!(matches!(a.jump_to_search_result(&unix(&[])), Command::Nothing));
}

#[test]
fn checksums_of_files() {
    let mut a = app();
    a.left.selected = vec![0, 2];
    let paths = match a.open_hash_dialog() {
        Command::ProbeHash(paths) => paths,
        other => panic!("{:?}", other),
    };
    assert_eq!(texts(&paths), ["/left/sub", "/left/b.txt"]);
    assert!(a.begin_hash(&paths, &vec![false, false]).is_none());
    assert_eq!(status(&a), "W:Vyber alespoň jeden soubor pro výpočet kontrolního součtu.");
    let files = a.begin_hash(&paths, &vec![false, true]).unwrap();
    assert_eq!(texts(&files), ["/left/b.txt"]);
    assert!(a.hash.show && a.hash.running);
    a.poll_hash(vec![HashMsg::Error { name: "n".to_string(), msg: "m".to_string() }, HashMsg::Finished]);
    assert!(!a.hash.running);
    a.hash_copied();
    assert_eq!(status(&a), "I:Hash zkopírován do schránky.");
    assert!(a.open_dialog() == Some(Dialog::Hash));
    assert!(matches!(a.dialog_escape(Dialog::Hash), Command::StopHash { stop: true }));
    assert!(!a.hash.show);
    a.poll_hash(vec![HashMsg::Finished]);
}

#[test]
fn bookmarks_lead_back() {
    let mut a = app();
    a.bookmarks.open(ActivePanel::Right);
    a.add_bookmark_current();
    a.add_bookmark_single();
    assert_eq!(a.bookmarks.list[0].name, "right");
    assert!(a.bookmarks.list[1].right.is_none());
    assert_eq!(a.bookmark_path_text(false), "/right");
    assert_eq!(a.bookmark_path_text(true), "/left");
    assert_eq!(a.bookmark_on_enter(), Some(0));
    a.left.go_to(&unix(&["x"]));
    a.right.go_to(&unix(&["y"]));
    let bm = a.bookmarks.pick(0);
    assert!(a.jump_to_bookmark(&bm));
    assert_eq!(a.left.current_path.text(), "/left");
    assert_eq!(a.right.current_path.text(), "/right");
    assert!(a.active == ActivePanel::Right);
    let single = Bookmark { name: String::new(), left: unix(&["z"]), right: None };
    assert!(!a.jump_to_bookmark(&single));
    assert_eq!(a.right.current_path.text(), "/z");
    assert_eq!(a.left.current_path.text(), "/left");
}

#[test]
fn renaming_files() {
    let mut a = app();
    a.left.selected = vec![1, 2];
    a.rename.open();
    a.rename.pattern = "b".to_string();
    a.rename.replacement = "c".to_string();
    assert!(a.rename_counter_fits());
    assert_eq!(a.rename_preview().unwrap().len(), 2);
    assert_eq!(a.apply_bulk_rename().unwrap(), [("b.txt".to_string(), "c.txt".to_string())]);
    a.rename.use_regex = true;
    a.rename.pattern = "[".to_string();
    assert!(a.apply_bulk_rename().is_none());
    assert!(a.rename.error.as_ref().unwrap().starts_with("Neplatný regex: "));
    a.rename_single.show = true;
    a.rename_single.old_name = "a".to_string();
    a.rename_single.new_name = "b".to_string();
    assert!(a.open_dialog() == Some(Dialog::RenameSingle));
    match a.dialog_enter(Dialog::RenameSingle, true) {
        Command::RenameFile(q) => assert_eq!((q.old_name.as_str(), q.new_name.as_str()), ("a", "b")),
        other => panic!("{:?}", other),
    }
    assert!(matches!(a.rename_single_done(Err("x".to_string())), Command::Nothing));
    assert_eq!(a.rename_single.error.as_deref(), Some("x"));
    assert!(matches!(a.rename_single_done(Ok(())), Command::Reload { focus: Focus::Name(_), .. }));
    assert!(!a.rename_single.show);
}

#[test]
fn masks_select_and_deselect() {
    let mut a = app();
    a.open_mask(true);
    assert_eq!(a.mask.mask, "*.");
    a.mask.mask = " *.ZIP ".to_string();
    assert!(matches!(a.dialog_enter(Dialog::Mask, true), Command::Nothing));
    assert_eq!(a.left.selected, [1]);
    assert!(!a.mask.show);
    a.open_mask(false);
    assert_eq!(a.mask.mask, "*");
    a.confirm_mask();
    assert!(a.left.selected.is_empty());
    a.mask.mask = String::new();
    a.open_mask(true);
    assert_eq!(a.mask.mask, "*");
}

#[test]
fn new_directories_and_files() {
    let mut a = app();
    a.open_new_dir();
    assert!(matches!(a.confirm_new_dir(), Command::Nothing));
    assert_eq!(a.new_dir.error.as_deref(), Some("Název nesmí být prázdný."));
    a.new_dir.name = " nová ".to_string();
    match a.dialog_enter(Dialog::NewDir, true) {
        Command::CreateDir { dir, name } => {
            assert_eq!((dir.text().as_str(), name.as_str()), ("/left", "nová"));
        }
        other => panic!("{:?}", other),
    }
    assert!(matches!(a.new_dir_done("n".to_string(), Err("x".to_string())), Command::Nothing));
    assert_eq!(a.new_dir.error.as_deref(), Some("x"));
    assert!(matches!(a.new_dir_done("n".to_string(), Ok(())), Command::Reload { .. }));
    assert!(!a.new_dir.show && a.new_dir.error.is_none());
    a.open_new_file();
    assert_eq!(a.new_file.name, "novy_soubor.txt");
    assert!(matches!(a.confirm_new_file(), Command::CreateFile { .. }));
    a.new_file.name = "  ".to_string();
    assert!(matches!(a.confirm_new_file(), Command::Nothing));
    assert_eq!(a.new_file.error.as_deref(), Some("Název nesmí být prázdný."));
    assert!(matches!(a.new_file_done("n".to_string(), Err("y".to_string())), Command::Nothing));
    assert!(matches!(a.new_file_done("n".to_string(), Ok(())), Command::Reload { .. }));
}

#[test]
fn editors_for_text() {
    let mut a = app();
    assert!(matches!(a.open_text_editor(), Command::Nothing));
    a.left.cursor = 1;
    assert!(matches!(a.open_text_editor(), Command::Nothing));
    a.left.cursor = 3;
    match a.open_text_editor() {
        Command::ReadText { path, from_menu } => {
            assert_eq!(path.text(), "/left/b.txt");
            assert!(!from_menu);
        }
        other => panic!("{:?}", other),
    }
    a.text_read(unix(&["left", "b.txt"]), false, Err("x".to_string()));
    assert_eq!(status(&a), "E:Nelze otevřít: x");
    a.text_read(unix(&["left", "b.txt"]), true, Err("x".to_string()));
    assert_eq!(status(&a), "E:Soubor nelze otevřít jako text.");
    a.text_read(unix(&["left", "b.txt"]), false, Ok("ahoj".to_string()));
    assert!(a.editor.show && a.editor.jump_start && !a.editor.modified);
    a.editor.modified = true;
    assert_eq!(a.editor_title(), "📝 b.txt •");
    a.save_text_editor(Err("plno".to_string()));
    assert_eq!(status(&a), "E:Chyba uložení: plno");
    assert!(a.editor.modified);
    a.save_text_editor(Ok(()));
    assert_eq!(status(&a), "I:Uloženo: b.txt");
    assert_eq!(a.editor_title(), "📝 b.txt");
    assert!(!a.switch_panel());
    a.editor.show = false;
    assert!(a.switch_panel());
    assert!(a.active == ActivePanel::Right);
    assert!(a.switch_panel());
    assert!(a.active == ActivePanel::Left);
    assert!(matches!(a.open_external_editor(), Command::Nothing));
    assert_eq!(status(&a), "W:Není nastaven externí editor. Nastavte ho v Nastavení → Editor.");
    a.external_editor = " vim ".to_string();
    match a.open_external_editor() {
        Command::StartEditor { program, file, name } => {
            assert_eq!((program.as_str(), name.as_str()), ("vim", "b.txt"));
            assert_eq!(file.text(), "/left/b.txt");
        }
        other => panic!("{:?}", other),
    }
    a.editor_started("b.txt", Ok(()));
    assert_eq!(status(&a), "I:Otevřeno v externím editoru: b.txt");
    a.editor_started("b.txt", Err("x".to_string()));
    assert_eq!(status(&a), "E:Chyba spuštění editoru: x");
}

#[test]
fn settings_are_changed() {
    let mut a = app();
    assert!(!a.change_theme(true));
    assert!(a.change_theme(false));
    assert!(!a.change_dir_sort(DirSort::FirstByCol));
    assert!(a.change_dir_sort(DirSort::Mixed));
    assert!(a.left.dir_sort == DirSort::Mixed && a.right.dir_sort == DirSort::Mixed);
    assert!(a.change_show_hidden(true));
    assert!(!a.change_show_hidden(true));
    assert!(a.left.show_hidden && a.right.show_hidden);
    assert!(a.editor_picked(Some(" code \n".to_string())));
    assert_eq!(a.external_editor, "code");
    assert!(!a.editor_picked(Some(" \n".to_string())));
    assert_eq!(a.external_editor, "code");
    assert!(!a.editor_picked(None));
    assert_eq!(
        status(&a),
        "E:Nepodařilo se otevřít dialog pro výběr souboru (chybí zenity nebo kdialog)."
    );
}

#[test]
fn changes_on_disk() {
    let mut a = app();
    assert!(a.update_watcher());
    a.watcher_set();
    assert!(!a.update_watcher());
    assert!(a.two_directories());
    let event = |kind, paths: Vec<DirPath>| FsEvent { kind, paths };
    let none = vec![
        event(ChangeKind::Other, vec![unix(&["left", "x"])]),
        event(ChangeKind::Create, vec![unix(&["left", "sub", "x"]), unix(&[])]),
    ];
    assert_eq!(a.poll_fs_events(&none), (false, false));
    let some = vec![
        event(ChangeKind::Rename, vec![unix(&["x"]), unix(&["right", "x"])]),
        event(ChangeKind::Remove, vec![unix(&["left", "x"])]),
    ];
    assert_eq!(a.poll_fs_events(&some), (true, true));
    assert_eq!(a.poll_fs_events(&some[..1].iter().map(|e| FsEvent {
        kind: e.kind,
        paths: e.paths.iter().map(|p| p.clone()).collect(),
    }).collect()), (false, true));
}

#[test]
fn sizes_are_counted_in_the_background() {
    let mut a = app();
    assert!(matches!(a.start_dir_size_calc(), Command::Nothing));
    a.left.selected = vec![0, 1];
    a.right.selected = vec![0];
    match a.start_dir_size_calc() {
        Command::CountSizes(dirs) => assert_eq!(texts(&dirs), ["/left/sub", "/right/sub"]),
        other => panic!("{:?}", other),
    }
    assert!(a.sizes_awaited && a.needs_repaint());
    a.poll_dir_sizes(&vec![(unix(&["left", "sub"]), 5), (unix(&["left", "sub"]), 7)], false);
    assert_eq!(a.left.entries[0].dir_size, Some(7));
    assert_eq!(a.left.entries[1].dir_size, None);
    assert_eq!(a.right.entries[0].dir_size, None);
    assert!(a.sizes_awaited);
    a.poll_dir_sizes(&vec![(unix(&["right", "sub"]), 9)], true);
    assert_eq!(a.right.entries[0].dir_size, Some(9));
    assert!(!a.sizes_awaited);
    a.poll_dir_sizes(&vec![(unix(&["right", "sub"]), 1)], true);
    assert_eq!(a.right.entries[0].dir_size, Some(9));
    assert!(matches!(a.start_requested_sizes(), Command::Nothing));
    let mut a = app();
    a.press(FnKey::SelectAll);
    assert!(a.left.dir_size_needed);
    assert!(matches!(a.start_requested_sizes(), Command::CountSizes(_)));
    assert!(!a.left.dir_size_needed);
}

#[test]
fn the_context_menu() {
    let mut a = app();
    a.left.cursor = 3;
    assert_eq!(menu_offer(&a.left, 0), MenuOffer { open: false, hash: false });
    assert_eq!(menu_offer(&a.left, 2), MenuOffer { open: true, hash: true });
    a.context_action(ContextAction::Copy);
    assert!(a.copy.show && a.copy.kind == OpKind::Copy);
    a.context_action(ContextAction::Move);
    assert!(a.copy.kind == OpKind::Move);
    a.context_action(ContextAction::Delete);
    assert!(a.delete.show);
    a.context_action(ContextAction::NewDir);
    assert!(a.new_dir.show);
    a.context_action(ContextAction::NewFile);
    assert!(a.new_file.show);
    a.context_action(ContextAction::Rename);
    assert_eq!(a.left.inline_rename_idx, Some(2));
    assert!(matches!(a.context_action(ContextAction::Open(unix(&["x"]))), Command::OpenSystem(_)));
    assert!(matches!(
        a.context_action(ContextAction::Edit(unix(&["x"]))),
        Command::ReadText { from_menu: true, .. }
    ));
    assert!(matches!(a.context_action(ContextAction::SelectAll), Command::CountSizes(_)));
    assert_eq!(a.left.selected, [0, 1, 2]);
    assert!(matches!(a.context_action(ContextAction::Hash), Command::ProbeHash(_)));
    a.context_action(ContextAction::DeselectAll);
    assert!(a.left.selected.is_empty());
    enter_archive(&mut a);
    assert_eq!(menu_offer(&a.left, 0), MenuOffer { open: false, hash: true });
}

#[test]
fn looking_for_a_newer_version() {
    let mut a = app();
    assert!(a.check_at_start());
    assert!(!a.check_at_start());
    a.poll_update_check(UpdateReply::Came(Err("x".to_string())), "1.0.0");
    assert_eq!(status(&a), "E:Update selhal: x");
    assert!(a.update.check_for_update());
    let release = UpdateCheckResult { version: "v2.0.0".to_string(), download_url: "u".to_string() };
    a.poll_update_check(UpdateReply::Came(Ok(release)), "1.0.0");
    assert!(matches!(a.update.state, UpdateState::UpdateAvailable { .. }));
    assert!(a.any_dialog_open());
    assert_eq!(status(&a), "E:Update selhal: x");
}

#[test]
fn the_end_of_a_picture() {
    let mut a = app();
    assert!(!a.paths_changed());
    a.left.go_to(&unix(&["x"]));
    assert!(a.paths_changed());
    assert!(!a.paths_changed());
    a.left.cursor_moved = true;
    a.end_frame();
    assert!(!a.left.cursor_moved);
}

#[test]
fn the_mouse_on_panels() {
    let mut a = app();
    assert!(matches!(
        a.drive_clicked(ActivePanel::Right, &unix(&[])),
        Command::Reload { side: ActivePanel::Right, focus: Focus::Keep }
    ));
    assert!(a.active == ActivePanel::Right);
    assert!(matches!(
        a.crumb_clicked(ActivePanel::Left, &unix(&["c"])),
        Command::Reload { side: ActivePanel::Left, focus: Focus::Top }
    ));
    assert_eq!(a.left.current_path.text(), "/c");
    let probe = PathProbe { path: unix(&["p"]), exists: true, is_dir: false };
    assert_eq!(a.path_entered(ActivePanel::Right, &probe).unwrap_err(), "Zadaná cesta není adresář.");
    assert!(a.active == ActivePanel::Right);
    let probe = PathProbe { path: unix(&["p"]), exists: true, is_dir: true };
    assert!(a.path_entered(ActivePanel::Left, &probe).is_ok());
    assert_eq!(a.left.current_path.text(), "/p");
    a.head_clicked(ActivePanel::Right, SortColumn::Name);
    assert!(a.right.sort_dir == SortDir::Desc && a.active == ActivePanel::Left);
    let mut a = app();
    a.row_clicked(ActivePanel::Right, 1);
    assert_eq!(a.right.cursor, 2);
    assert!(a.active == ActivePanel::Right && a.right.selected.is_empty());
    assert!(matches!(a.row_double_clicked(ActivePanel::Left, 0), Command::Reload { .. }));
    assert!(a.active == ActivePanel::Left);
    assert!(matches!(a.row_double_clicked(ActivePanel::Right, 2), Command::OpenSystem(_)));
    assert!(a.active == ActivePanel::Left);
    assert!(matches!(
        a.up_clicked(ActivePanel::Right),
        Command::Reload { side: ActivePanel::Right, focus: Focus::Name(_) }
    ));
    a.up_clicked(ActivePanel::Right);
    assert!(matches!(a.up_clicked(ActivePanel::Right), Command::Nothing));
}

#[test]
fn dragging_moves_either_way() {
    for from in [ActivePanel::Left, ActivePanel::Right] {
        let mut a = app();
        a.row_dragged(from, 2);
        assert!(a.active == from && a.drag_src == Some(from));
        assert_eq!(a.panel(from).selected, [2]);
        assert!(a.takes_drop(from.other()) && !a.takes_drop(from));
        assert!(a.mouse_released(Some(from.other())));
        assert!(a.drag_src.is_none());
        assert!(!a.mouse_released(Some(from.other())));
        a.row_dragged(from, 0);
        assert!(!a.mouse_released(Some(from)));
        a.row_dragged(from, 0);
        assert!(!a.mouse_released(None));
        assert!(a.drag_src.is_none());
        assert!(a.context_action(ContextAction::Move).is_nothing());
        assert_eq!(a.copy.dst.text(), a.panel(from.other()).current_path.text());
    }
}

trait Silent {
    fn is_nothing(&self) -> bool;
}

impl Silent for Command {
    fn is_nothing(&self) -> bool {
        matches!(self, Command::Nothing)
    }
}

#[test]
fn windows_take_their_keys() {
    let mut a = app();
    a.hash.show = true;
    a.bookmarks.show = true;
    a.new_file.show = true;
    a.new_dir.show = true;
    a.search.show = true;
    a.rename.show = true;
    a.op.show = true;
    a.rename_single.show = true;
    a.mask.show = true;
    a.copy.show = true;
    a.pack.show = true;
    a.delete.show = true;
    let order = [
        Dialog::Delete,
        Dialog::Pack,
        Dialog::Copy,
        Dialog::Mask,
        Dialog::RenameSingle,
        Dialog::Progress,
        Dialog::Rename,
        Dialog::Search,
        Dialog::NewDir,
        Dialog::NewFile,
        Dialog::Bookmarks,
        Dialog::Hash,
    ];
    for d in order {
        assert!(a.open_dialog() == Some(d));
        a.dialog_escape(d);
    }
    assert!(a.open_dialog().is_none());
    assert!(!a.any_dialog_open());
    let all = DialogKeys { arrows: true, enter: true, escape: true };
    assert_eq!(Dialog::Delete.keys(true), all);
    assert_eq!(Dialog::Copy.keys(true), DialogKeys { arrows: false, ..all });
    assert_eq!(Dialog::Copy.keys(false), all);
    assert_eq!(Dialog::Mask.keys(false), DialogKeys { arrows: false, ..all });
    assert_eq!(Dialog::Search.keys(false), DialogKeys { arrows: false, enter: false, escape: true });
    a.dialog_move(Dialog::Search, true, true);
    assert!(matches!(a.dialog_enter(Dialog::Bookmarks, false), Command::Nothing));
}

#[test]
fn enter_in_the_copy_window() {
    let mut a = app();
    a.left.cursor = 3;
    a.start_copy();
    a.copy.focus = 1;
    assert!(matches!(a.dialog_enter(Dialog::Copy, true), Command::ProbeFiles(_)));
    a.start_copy();
    a.dialog_move(Dialog::Copy, false, true);
    assert!(matches!(a.dialog_enter(Dialog::Copy, false), Command::Nothing));
    assert!(!a.copy.show);
}

#[test]
fn function_keys_in_order() {
    let a = app();
    let keys = Keys { f8: true, f5: true, plus: true, ..NO_KEYS };
    let (fns, navs) = a.handle_shortcuts(&keys, &NO_NAV, false);
    assert_eq!(fns, [FnKey::Copy, FnKey::Delete, FnKey::MaskAdd]);
    assert!(navs.is_empty());
    let alt = Keys { alt: true, f5: true, f7: true, c: true, ..NO_KEYS };
    let (fns, _) = a.handle_shortcuts(&alt, &NO_NAV, false);
    assert_eq!(fns, [FnKey::Search, FnKey::Pack, FnKey::CopyPath]);
    let ctrl = Keys { ctrl: true, m: true, n: true, e: true, h: true, a: true, c: true, ..NO_KEYS };
    let (fns, _) = a.handle_shortcuts(&ctrl, &NO_NAV, false);
    assert_eq!(
        fns,
        [FnKey::RenameMany, FnKey::NewFile, FnKey::Edit, FnKey::Hash, FnKey::SelectAll]
    );
    let (fns, _) = a.handle_shortcuts(&Keys { shift: true, ..ctrl }, &NO_NAV, false);
    assert!(!fns.contains(&FnKey::SelectAll));
    let rest = Keys { f2: true, f3: true, f4: true, f6: true, f7: true, minus: true, ..NO_KEYS };
    let (fns, _) = a.handle_shortcuts(&rest, &NO_NAV, false);
    assert_eq!(
        fns,
        [FnKey::Move, FnKey::NewDir, FnKey::Rename, FnKey::Edit, FnKey::EditOutside, FnKey::MaskRemove]
    );
}

#[test]
fn keys_that_are_blocked() {
    let mut a = app();
    let keys = Keys { f5: true, ..NO_KEYS };
    let nav = NavPressed { down: true, enter: true, delete: true, ..NO_NAV };
    assert_eq!(a.handle_shortcuts(&keys, &nav, true), (vec![], vec![]));
    assert_eq!(
        a.handle_shortcuts(&keys, &nav, false),
        (vec![FnKey::Copy], vec![NavKey::Delete, NavKey::Down, NavKey::Enter])
    );
    a.op.show = true;
    a.op.running = true;
    assert_eq!(a.handle_shortcuts(&keys, &nav, false), (vec![FnKey::Copy], vec![]));
    a.search.show = true;
    assert_eq!(a.handle_shortcuts(&keys, &nav, false), (vec![], vec![]));
    assert_eq!(a.keys_free(false), (false, false));
    let a = app();
    assert_eq!(a.keys_free(false), (true, true));
    assert_eq!(a.keys_free(true), (false, true));
}

#[test]
fn pressing_function_keys() {
    let mut a = app();
    a.left.cursor = 3;
    a.press(FnKey::NewDir);
    assert!(a.new_dir.show);
    a.press(FnKey::Search);
    assert!(a.search.show);
    a.press(FnKey::Rename);
    assert_eq!(a.left.inline_rename_idx, Some(2));
    a.press(FnKey::RenameMany);
    assert!(a.rename.show);
    a.press(FnKey::NewFile);
    assert!(a.new_file.show);
    assert!(matches!(a.press(FnKey::Edit), Command::ReadText { .. }));
    assert!(matches!(a.press(FnKey::Hash), Command::ProbeHash(_)));
    a.press(FnKey::Pack);
    assert!(a.pack.show);
    a.press(FnKey::Move);
    assert!(a.copy.show);
    a.press(FnKey::Delete);
    assert!(a.delete.show);
    a.press(FnKey::MaskRemove);
    assert!(a.mask.show && !a.mask.adding);
    a.press(FnKey::MaskAdd);
    assert!(a.mask.adding);
    a.press(FnKey::EditOutside);
    assert!(status(&a).starts_with("W:"));
    match a.press(FnKey::CopyPath) {
        Command::CopyText(t) => assert_eq!(t, "/left/b.txt"),
        other => panic!("{:?}", other),
    }
    assert_eq!(status(&a), "I:Zkopírováno: /left/b.txt");
    a.left.cursor = 0;
    assert!(matches!(a.press(FnKey::CopyPath), Command::CopyText(t) if t == "/left"));
    assert!(matches!(a.press(FnKey::Copy), Command::Nothing));
}

#[test]
fn moving_through_a_panel() {
    let mut a = app();
    a.navigate(NavKey::Down);
    a.navigate(NavKey::Down);
    assert_eq!(a.left.cursor, 2);
    a.navigate(NavKey::Up);
    assert_eq!(a.left.cursor, 1);
    a.navigate(NavKey::PageDown);
    assert_eq!(a.left.cursor, 3);
    a.navigate(NavKey::PageUp);
    assert_eq!(a.left.cursor, 0);
    a.navigate(NavKey::End);
    assert_eq!(a.left.cursor, 3);
    a.navigate(NavKey::Home);
    assert_eq!(a.left.cursor, 0);
    a.navigate(NavKey::Down);
    assert!(matches!(a.navigate(NavKey::Space), Command::CountSizes(_)));
    assert_eq!(a.left.selected, [0]);
    assert!(matches!(
        a.navigate(NavKey::Enter),
        Command::Reload { side: ActivePanel::Left, focus: Focus::Keep }
    ));
    assert_eq!(a.left.current_path.text(), "/left/sub");
    a.navigate(NavKey::Delete);
    assert!(a.delete.show);
    a.reload(ActivePanel::Left, Listing::Directory(Some(vec![item("x", false)])), &Focus::Name("x".to_string()));
    assert_eq!(a.left.cursor, 1);
    assert!(a.left.selected.is_empty());
}
