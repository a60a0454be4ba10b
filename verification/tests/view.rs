use er_commander::archive::ArchiveLocation;
use er_commander::bookmark::Bookmark;
use er_commander::entry::{FileEntry, RawEntry, RawMetadata, SortColumn, SortDir};
use er_commander::file_op::{FileSlot, OpKind};
use er_commander::labels::{
    archive_line, bookmark_lines, bytes_done, copy_button, copy_title, delete_question,
    errors_line, files_done, hash_line, main_title, overwrite_question, pack_lines, pack_title,
    preview_line, progress_title, search_line, skipped_line, slots_shown, up_to_date_line,
    update_lines,
};
use er_commander::panel::Panel;
use er_commander::path::DirPath;
use er_commander::search::SearchBox;
use er_commander::view::{
    breadcrumbs, drag_label, menu_label, row_cells, slot_text, sort_arrow, totals_text, Icons,
    StatusMsg,
};

fn unix(parts: &[&str]) -> DirPath {
    DirPath {
        root: "/".to_string(),
        parts: parts.iter().map(|p| p.to_string()).collect(),
        sep: '/',
    }
}

fn item(name: &str, is_dir: bool, len: u64) -> RawEntry {
    RawEntry {
        name: name.to_string(),
        metadata: Some(RawMetadata { is_dir, len, modified: None, readonly: false, attributes: 0 }),
    }
}

fn sample() -> Panel {
    Panel::new(
        unix(&["home"]),
        vec![],
        Some(vec![item("d.x", true, 4096), item("a.TXT", false, 1024), item("b.zip", false, 10)]),
    )
}

#[test]
fn messages_and_colours() {
    assert_eq!(StatusMsg::Info("a".to_string()).text(), "a");
    assert_eq!(StatusMsg::Info(String::new()).color(), (100, 220, 120));
    assert_eq!(StatusMsg::Warn(String::new()).color(), (255, 200, 50));
    assert_eq!(StatusMsg::Error("e".to_string()).color(), (255, 70, 70));
    assert_eq!(StatusMsg::Error("e".to_string()).text(), "e");
    assert_eq!(StatusMsg::Warn("w".to_string()).text(), "w");
}

#[test]
fn cells_of_rows() {
    let mut p = sample();
    p.cursor = 2;
    p.selected = vec![2];
    let c = row_cells(&p, 0, true);
    assert_eq!(c.icon, Icons::folder());
    assert_eq!((c.stem.as_str(), c.ext.as_str(), c.size.as_str()), ("d.x", "", ""));
    assert!(!c.cursor && !c.selected);
    let c = row_cells(&p, 1, true);
    assert_eq!(c.icon, Icons::file());
    assert_eq!((c.stem.as_str(), c.ext.as_str(), c.size.as_str()), ("a.TXT", "txt", "1.0 KB"));
    assert!(c.cursor);
    assert!(!row_cells(&p, 1, false).cursor);
    let c = row_cells(&p, 2, true);
    assert_eq!(c.icon, Icons::archive());
    assert_eq!((c.stem.as_str(), c.ext.as_str(), c.size.as_str()), ("b", "zip", "10 B"));
    assert!(c.selected);
    assert_eq!(c.attr, "");
    p.entries[0].dir_size = Some(2048);
    assert_eq!(row_cells(&p, 0, true).size, "2.0 KB");
    assert_eq!(Icons::up(), "\u{2B06}");
    assert_eq!(Icons::bookmark(), "\u{2605}");
}

#[test]
fn arrows_on_heads() {
    let mut p = sample();
    assert_eq!(sort_arrow(&p, SortColumn::Name), " ▲");
    assert_eq!(sort_arrow(&p, SortColumn::Size), "");
    p.sort_dir = SortDir::Desc;
    assert_eq!(sort_arrow(&p, SortColumn::Name), " ▼");
}

#[test]
fn pieces_of_a_path() {
    let c = breadcrumbs(&unix(&["home", "já"]));
    let labels: Vec<&str> = c.iter().map(|p| p.label.as_str()).collect();
    assert_eq!(labels, ["\\", "home", "já"]);
    assert_eq!(c[1].path.text(), "/home");
    assert!(c[2].current && !c[1].current);
    assert_eq!(c[2].path.text(), "/home/já");
    let drive = DirPath { root: "C:\\".to_string(), parts: vec!["a".to_string()], sep: '\\' };
    let c = breadcrumbs(&drive);
    assert_eq!(c[0].label, "C:\\");
    assert_eq!(c[0].path.text(), "C:\\");
    assert_eq!(c[1].path.text(), "C:\\a");
}

#[test]
fn totals_of_a_panel() {
    let mut p = sample();
    assert_eq!(totals_text(&p).unwrap(), "2 souborů, 1 složek  (1.0 KB)");
    p.selected = vec![0, 1];
    assert_eq!(totals_text(&p).unwrap(), "Vybráno: 1 souborů, 1 složek  (1.0 KB)");
    p.selected = vec![0];
    assert_eq!(totals_text(&p).unwrap(), "Vybráno: 0 souborů, 1 složek");
    p.entries = vec![
        FileEntry {
            name: "x".to_string(),
            ext: String::new(),
            is_dir: false,
            size: u64::MAX,
            is_archive: false,
            modified: None,
            readonly: false,
            dir_size: None,
        },
        FileEntry {
            name: "y".to_string(),
            ext: String::new(),
            is_dir: false,
            size: 1,
            is_archive: false,
            modified: None,
            readonly: false,
            dir_size: None,
        },
    ];
    p.selected = vec![];
    assert!(totals_text(&p).is_none());
}

#[test]
fn labels_of_the_menu_and_of_dragging() {
    let mut p = sample();
    assert_eq!(menu_label(&p, "x"), "x");
    p.selected = vec![0, 1];
    assert_eq!(menu_label(&p, "x"), "2 označených položek");
    assert_eq!(drag_label(&p, "x"), "➡ 2 souborů");
    p.selected = vec![0];
    assert_eq!(drag_label(&p, "x"), "➡ x");
    assert_eq!(slot_text(512, 1024), "512 B / 1.0 KB");
    assert_eq!(slot_text(0, 0), "přenáším...");
}

#[test]
fn texts_of_windows() {
    assert_eq!(main_title("1.2"), "eR Commander v1.2");
    assert_eq!(delete_question(3), "Chystáš se natrvalo smazat 3 položek:");
    assert_eq!(pack_title(2), "📦 Zabalit 2 položek do ZIP");
    assert_eq!(pack_lines(&vec![unix(&["a"]), unix(&["b"])]), ["a", "b"]);
    let many: Vec<DirPath> = (0..6).map(|_| unix(&["a"])).collect();
    assert_eq!(pack_lines(&many), ["6 souborů/složek"]);
    assert_eq!(copy_title(OpKind::Copy, 1), "Kopírovat 1 položek?");
    assert_eq!(copy_title(OpKind::Move, 2), "Přesunout 2 položek?");
    assert_eq!(copy_button(OpKind::Copy), "Ano, kopírovat");
    assert_eq!(copy_button(OpKind::Move), "Ano, přesunout");
    assert_eq!(
        overwrite_question(4),
        "4 položek v cíli už existuje a budou přepsány, pokud zvolíš \"Přepsat vše\":"
    );
    assert_eq!(preview_line("a", "a"), (false, "  a".to_string()));
    assert_eq!(preview_line("a", "b"), (true, "a  →  b".to_string()));
    assert_eq!(progress_title("Mazání"), "Mazání – průběh");
    assert_eq!(files_done(1, 2), "1 / 2 souborů");
    assert_eq!(bytes_done(1024, 2048), "1.0 KB / 2.0 KB");
    assert_eq!(skipped_line(2), "Přeskočeno: 2 souboru");
    assert_eq!(errors_line(1), "Chyby: 1");
    assert_eq!(hash_line(1, 3, "f"), "Počítám 1/3: f");
    assert_eq!(up_to_date_line("1.0"), "✅ Máš nejnovější verzi (v1.0).");
    assert_eq!(
        update_lines("v2", "1.0"),
        ("🆕 Dostupná nová verze: v2".to_string(), "Aktuální verze: v1.0".to_string())
    );
}

#[test]
fn lines_of_lists() {
    let mut b = SearchBox::new(unix(&[]));
    assert_eq!(search_line(&b), None);
    b.results.push(unix(&["x"]));
    assert_eq!(search_line(&b), Some("nalezeno: 1".to_string()));
    b.running = true;
    b.scanned = 400;
    assert_eq!(search_line(&b), Some("prohledáno 400 souborů...".to_string()));
    let bm = Bookmark { name: "n".to_string(), left: unix(&["a"]), right: Some(unix(&["b"])) };
    assert_eq!(bookmark_lines(&bm), ("A: /a".to_string(), Some("N: /b".to_string())));
    let loc = ArchiveLocation {
        archive_path: unix(&["home", "x.zip"]),
        internal_dir: "d/".to_string(),
    };
    assert_eq!(archive_line(&loc), "[ZIP] x.zip /d/");
    let slot = || Some(FileSlot { file: "f".to_string(), size: 1, copied: 0 });
    assert_eq!(slots_shown(&vec![None, slot(), None, slot()]), [1, 3]);
}
