use er_commander::path::DirPath;
use er_commander::platform::{
    available_drives, desktop_entry, dirs_home, disk_bar, disk_space, drive_name,
    open_with_system_app, state_file_path, window_file_path, Platform, LETTERS,
};

fn unix(parts: &[&str]) -> DirPath {
    DirPath {
        root: "/".to_string(),
        parts: parts.iter().map(|p| p.to_string()).collect(),
        sep: '/',
    }
}

#[test]
fn drives() {
    assert_eq!(LETTERS, 26);
    assert_eq!(drive_name(2), "C:\\");
    let mut present = vec![false; LETTERS];
    present[2] = true;
    present[25] = true;
    assert_eq!(available_drives(true, &present), ["C:\\", "Z:\\"]);
    assert_eq!(available_drives(false, &present), ["/"]);
}

#[test]
fn home_directories() {
    let a = || Some(unix(&["a"]));
    let b = || Some(unix(&["b"]));
    assert_eq!(dirs_home(a(), b(), false).text(), "/a");
    assert_eq!(dirs_home(None, b(), false).text(), "/b");
    assert_eq!(dirs_home(None, None, false).text(), "/");
    assert_eq!(dirs_home(None, None, true).text(), "C:\\");
    assert_eq!(state_file_path(&unix(&["a"])).text(), "/a/.er_commander_state.txt");
    assert_eq!(window_file_path(&unix(&["a"])).text(), "/a/.er_commander_window.txt");
}

#[test]
fn disks() {
    assert_eq!(disk_space(true, 1, 5, 9), Some((5, 9)));
    assert_eq!(disk_space(true, 0, 5, 9), None);
    assert_eq!(disk_space(false, 1, 5, 9), None);
    assert!(disk_bar(0, 0).is_none());
    let bar = disk_bar(1024, 3072).unwrap();
    assert_eq!(bar.used, 2048);
    assert_eq!(bar.label, "1.0 KB / 2.0 KB / 3.0 KB");
    assert_eq!(bar.hint, "Volné: 1.0 KB  |  Použité: 2.0 KB  |  Celkem: 3.0 KB");
}

#[test]
fn opening_with_the_system() {
    let c = open_with_system_app(Platform::Windows, "C:\\x");
    assert_eq!(c.program, "cmd");
    assert_eq!(c.args, ["/C", "start", "", "C:\\x"]);
    assert_eq!(open_with_system_app(Platform::Mac, "/x").program, "open");
    let c = open_with_system_app(Platform::Other, "/x");
    assert_eq!((c.program.as_str(), c.args[0].as_str()), ("xdg-open", "/x"));
}

#[test]
fn the_entry_of_the_program() {
    let e = desktop_entry("/opt/er");
    assert!(e.starts_with("[Desktop Entry]\nType=Application\nName=eR Commander\n"));
    assert!(e.contains("Exec=\"/opt/er\"\n"));
    assert!(e.ends_with("StartupWMClass=eR_Commander\n"));
}
