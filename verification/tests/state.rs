use er_commander::bookmark::Bookmark;
use er_commander::entry::{DirSort, SortColumn, SortDir};
use er_commander::panel::PathProbe;
use er_commander::path::DirPath;
use er_commander::state_file::{load_state, no_state, path_in_line, save_state, State};
use er_commander::text::lines;
use er_commander::window_state::{
    initial_window, load_window_state, save_window_state, Rect, WindowState,
};

fn unix(text: &str) -> DirPath {
    DirPath {
        root: "/".to_string(),
        parts: text.split('/').filter(|p| !p.is_empty()).map(|p| p.to_string()).collect(),
        sep: '/',
    }
}

fn probes(content: &str, is_dir: bool) -> Vec<Option<PathProbe>> {
    lines(content)
        .iter()
        .map(|l| path_in_line(l).map(|p| PathProbe { path: unix(&p), exists: is_dir, is_dir }))
        .collect()
}

fn sample() -> State {
    State {
        left: unix("/home/já"),
        right: unix("/"),
        sort_l_col: SortColumn::Ext,
        sort_l_dir: SortDir::Desc,
        sort_r_col: SortColumn::Date,
        sort_r_dir: SortDir::Asc,
        dark_mode: false,
        show_hidden: true,
        external_editor: "/usr/bin/vim".to_string(),
        dir_sort: DirSort::Mixed,
        bookmarks: vec![
            Bookmark { name: "dům".to_string(), left: unix("/home"), right: Some(unix("/tmp")) },
            Bookmark { name: "etc".to_string(), left: unix("/etc"), right: None },
        ],
    }
}

#[test]
fn the_text_of_a_state() {
    assert_eq!(
        save_state(&sample()),
        "LEFT=/home/já\nRIGHT=/\nSORT_L_COL=Ext\nSORT_L_DIR=Desc\nSORT_R_COL=Date\nSORT_R_DIR=Asc\n\
         DARK_MODE=false\nSHOW_HIDDEN=true\nEXT_EDITOR=/usr/bin/vim\nDIR_SORT=Mixed\n\
         BM_NAME=dům\nBM_LEFT=/home\nBM_RIGHT=/tmp\nBM_NAME=etc\nBM_LEFT=/etc\nBM_RIGHT=\n"
    );
}

#[test]
fn a_saved_state_is_loaded_again() {
    let content = save_state(&sample());
    let mut told = probes(&content, true);
    let last = told.len() - 1;
    told[last] = Some(PathProbe { path: DirPath::empty('/'), exists: false, is_dir: false });
    let saved = load_state(&content, &told);
    assert_eq!(saved.left.unwrap().text(), "/home/já");
    assert_eq!(saved.right.unwrap().text(), "/");
    assert!(saved.sort_l_col == Some(SortColumn::Ext));
    assert!(saved.sort_l_dir == Some(SortDir::Desc));
    assert!(saved.sort_r_col == Some(SortColumn::Date));
    assert!(saved.sort_r_dir == Some(SortDir::Asc));
    assert!(!saved.dark_mode && saved.show_hidden);
    assert_eq!(saved.external_editor, "/usr/bin/vim");
    assert!(saved.dir_sort == DirSort::Mixed);
    assert_eq!(saved.bookmarks.len(), 2);
    assert_eq!(saved.bookmarks[0].name, "dům");
    assert_eq!(saved.bookmarks[0].right.as_ref().unwrap().text(), "/tmp");
    assert!(saved.bookmarks[1].right.is_none());
}

#[test]
fn directories_that_are_gone() {
    let content = "LEFT=/nic\nRIGHT=\\\\NAS\\x\nBM_NAME=a\nBM_LEFT=/nic\nBM_RIGHT=\nBOOKMARK=/old\n";
    let saved = load_state(content, &probes(content, false));
    assert!(saved.left.is_none());
    assert!(saved.right.is_none());
    assert!(saved.bookmarks.is_empty());
    let saved = load_state(content, &probes(content, true));
    assert_eq!(saved.bookmarks.len(), 2);
    assert_eq!(saved.bookmarks[1].name, "old");
    assert!(saved.right.is_some());
}

#[test]
fn blanks_around_the_editor_are_lost_alone() {
    let mut state = sample();
    state.external_editor = " vim -R \r".to_string();
    let content = save_state(&state);
    let mut told = probes(&content, true);
    let last = told.len() - 1;
    told[last] = Some(PathProbe { path: DirPath::empty('/'), exists: false, is_dir: false });
    let saved = load_state(&content, &told);
    assert_eq!(saved.external_editor, "vim -R");
    assert_eq!(saved.left.unwrap().text(), "/home/já");
    assert!(!saved.dark_mode && saved.show_hidden);
    assert!(saved.dir_sort == DirSort::Mixed);
    assert_eq!(saved.bookmarks.len(), 2);
}

#[test]
fn lines_that_say_nothing() {
    let content = "x\nSORT_L_COL=Nic\nSORT_L_DIR=\nDIR_SORT=FirstByName\nDIR_SORT=Mixed\nDARK_MODE= true \n";
    let saved = load_state(content, &probes(content, true));
    assert!(saved.sort_l_col.is_none() && saved.sort_l_dir.is_none());
    assert!(saved.dir_sort == DirSort::FirstByName);
    assert!(saved.dark_mode);
    assert_eq!(path_in_line("SORT_L_COL=Name"), None);
    assert_eq!(path_in_line("LEFT=/x"), Some("/x".to_string()));
    let saved = no_state();
    assert!(saved.dark_mode && !saved.show_hidden && saved.left.is_none());
    assert!(saved.dir_sort == DirSort::FirstByCol);
}

#[test]
fn the_window_is_kept() {
    let rect = Rect { x: -5, y: 20, w: 800, h: 600 };
    let text = save_window_state(false, false, Some(rect));
    assert_eq!(text, "WIN_MAX=false\nWIN_MIN=false\nWIN_X=-5\nWIN_Y=20\nWIN_W=800\nWIN_H=600\n");
    assert_eq!(
        load_window_state(&text),
        WindowState { x: -5, y: 20, w: 800, h: 600, maximized: false }
    );
    let text = save_window_state(true, false, Some(rect));
    assert_eq!(text, "WIN_MAX=true\nWIN_MIN=false\n");
    assert_eq!(load_window_state(&text), WindowState { maximized: true, ..initial_window() });
    assert_eq!(save_window_state(false, false, None), "WIN_MAX=false\nWIN_MIN=false\n");
    assert_eq!(
        load_window_state("WIN_X=a\nWIN_Y= 7 \nWIN_H=3\n"),
        WindowState { x: 100, y: 7, w: 1300, h: 700, maximized: false }
    );
}
