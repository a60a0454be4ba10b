use er_commander::path::{copy_paths, DirPath};

fn unix(parts: &[&str]) -> DirPath {
    DirPath {
        root: "/".to_string(),
        parts: parts.iter().map(|p| p.to_string()).collect(),
        sep: '/',
    }
}

fn drive(parts: &[&str]) -> DirPath {
    DirPath {
        root: "C:\\".to_string(),
        parts: parts.iter().map(|p| p.to_string()).collect(),
        sep: '\\',
    }
}

#[test]
fn paths_as_text() {
    assert_eq!(unix(&[]).text(), "/");
    assert_eq!(unix(&["home", "já"]).text(), "/home/já");
    assert_eq!(drive(&[]).text(), "C:\\");
    assert_eq!(drive(&["a", "b"]).text(), "C:\\a\\b");
    assert_eq!(DirPath::empty('/').text(), "");
}

#[test]
fn child_and_parent() {
    let dir = unix(&["home"]);
    let child = dir.join("x");
    assert_eq!(child.text(), "/home/x");
    assert!(child.parent().unwrap().same(&dir));
    assert_eq!(child.file_name(), Some("x".to_string()));
    assert!(dir.join("").same(&dir));
    assert!(dir.join(".").same(&dir));
    assert!(unix(&[]).parent().is_none());
    assert!(!unix(&[]).has_parent());
    assert!(dir.has_parent());
    assert_eq!(unix(&[]).file_name(), None);
    assert_eq!(unix(&["a", ".."]).file_name(), None);
    assert_eq!(unix(&[]).file_name_or_empty(), "");
}

#[test]
fn texts_that_are_more_than_a_name() {
    let dir = unix(&["home"]);
    assert_eq!(dir.join("a/b").text(), "/home/a/b");
    assert!(dir.join("a/b").same(&dir.join("a").join("b")));
    assert_eq!(dir.join("a/b").file_name(), Some("b".to_string()));
    assert_eq!(dir.join("./a//b/").text(), "/home/a/b");
    assert_eq!(dir.join("../x").text(), "/home/../x");
    assert_eq!(dir.join("/etc/x").text(), "/etc/x");
    assert_eq!(dir.join("a\\b").parts, ["home", "a\\b"]);
    assert_eq!(dir.join("C:").text(), "/home/C:");
    assert_eq!(DirPath::empty('/').join("/x").text(), "/x");
    let dir = drive(&["home"]);
    assert_eq!(dir.join("a/b\\c").text(), "C:\\home\\a\\b\\c");
    assert_eq!(dir.join("\\etc").text(), "C:\\etc");
    assert_eq!(dir.join("D:\\x").text(), "D:\\x");
    assert_eq!(dir.join("d:x").text(), "d:x");
    assert_eq!(dir.join("\\\\NAS\\s\\x").text(), "\\\\NAS\\s\\x");
    assert_eq!(dir.join("\\\\NAS\\s\\x").root, "\\\\NAS\\s\\");
}

#[test]
fn children_with_other_names_differ() {
    let dir = unix(&["home"]);
    assert!(!dir.join("a").same(&dir.join("b")));
    assert!(dir.join("a").same(&dir.join("a")));
    assert!(!unix(&["a"]).same(&drive(&["a"])));
}

#[test]
fn extensions_are_exchanged() {
    assert_eq!(unix(&["er.exe"]).with_extension("exe.new").text(), "/er.exe.new");
    assert_eq!(unix(&["er"]).with_extension("zip.update").text(), "/er.zip.update");
    assert_eq!(unix(&[]).with_extension("x").text(), "/");
}

#[test]
fn labels_of_paths() {
    assert_eq!(unix(&["home"]).label(), "/");
    assert_eq!(drive(&["a"]).label(), "C:");
    assert_eq!(DirPath::empty('/').label(), "Disk");
}

#[test]
fn ancestors_and_copies() {
    let p = unix(&["a", "b", "c"]);
    assert_eq!(p.ancestor(2).text(), "/a/b");
    let mut q = p.clone();
    q.push("d");
    assert_eq!(q.text(), "/a/b/c/d");
    let all = copy_paths(&vec![p, q]);
    assert_eq!(all.len(), 2);
    assert_eq!(all[1].text(), "/a/b/c/d");
}
