use er_commander::entry::{
    extension_of, is_archive_extension, list_item, list_items, lower_extension_of, stem_of,
    FileEntry, RawEntry, RawMetadata, Time,
};

fn meta(is_dir: bool, len: u64, attributes: u32) -> RawMetadata {
    RawMetadata { is_dir, len, modified: None, readonly: false, attributes }
}

fn raw(name: &str, metadata: Option<RawMetadata>) -> RawEntry {
    RawEntry { name: name.to_string(), metadata }
}

fn row(name: &str, modified: Option<Time>) -> FileEntry {
    FileEntry {
        name: name.to_string(),
        ext: String::new(),
        is_dir: false,
        size: 5,
        is_archive: false,
        modified,
        readonly: true,
        dir_size: None,
    }
}

#[test]
fn extensions_of_names() {
    for name in ["a.txt", "a.b.c", ".bashrc", "a", "a.", "..", ".", "x.TAR.gz", ".a.b", "ž.Ž"] {
        let path = std::path::Path::new(name);
        let ext = path.extension().map(|e| e.to_string_lossy().into_owned());
        assert_eq!(extension_of(name), ext, "{}", name);
        let lower = ext.map(|e| e.to_lowercase()).unwrap_or_default();
        assert_eq!(lower_extension_of(name), lower, "{}", name);
    }
    for name in ["a.txt", "a.b.c", ".bashrc", "a", "x.TAR.gz"] {
        let stem = std::path::Path::new(name).file_stem().unwrap().to_string_lossy().into_owned();
        assert_eq!(stem_of(name), stem, "{}", name);
    }
}

#[test]
fn archives_are_known_by_extension() {
    assert!(is_archive_extension("zip"));
    assert!(is_archive_extension("rar"));
    assert!(is_archive_extension("7z"));
    assert!(!is_archive_extension("tar"));
    assert!(!is_archive_extension("ZIP"));
}

#[test]
fn dates_in_a_given_zone() {
    let e = row("a", Some(Time { secs: 0, nanos: 0 }));
    assert_eq!(e.modified_text(0), "01.01.1970 00:00");
    assert_eq!(e.modified_text(3600), "01.01.1970 01:00");
    assert_eq!(e.modified_text(-3600), "31.12.1969 23:00");
    let e = row("a", Some(Time { secs: 1709210096, nanos: 999 }));
    assert_eq!(e.modified_text(0), "29.02.2024 12:34");
    assert_eq!(row("a", None).modified_text(0), "");
}

#[test]
fn dates_in_the_zone_of_the_machine() {
    let e = row("a", Some(Time { secs: 1709210096, nanos: 0 }));
    let shown = e.modified_str();
    let mut found = false;
    let mut offset = -86340;
    while offset < 86400 {
        if e.modified_text(offset) == shown {
            found = true;
        }
        offset += 60;
    }
    assert!(found);
    assert_eq!(row("a", None).modified_str(), "");
    assert_eq!(shown.len(), 16);
}

#[test]
fn attributes_and_sizes() {
    let mut e = row("a", None);
    assert_eq!(e.attr_str(), "R");
    assert_eq!(e.effective_size(), 5);
    e.readonly = false;
    e.is_dir = true;
    assert_eq!(e.attr_str(), "");
    assert_eq!(e.effective_size(), 0);
    e.dir_size = Some(77);
    assert_eq!(e.effective_size(), 77);
}

#[test]
fn hidden_items_are_left_out() {
    assert!(list_item(&raw(".git", Some(meta(true, 0, 0))), false).is_none());
    assert!(list_item(&raw(".git", Some(meta(true, 0, 0))), true).is_some());
    assert!(list_item(&raw("pagefile.sys", Some(meta(false, 1, 6))), false).is_none());
    assert!(list_item(&raw("a", Some(meta(false, 1, 2))), false).is_none());
    assert!(list_item(&raw("a", Some(meta(false, 1, 32))), false).is_some());
    assert!(list_item(&raw("a", None), true).is_none());
}

#[test]
fn rows_of_a_directory() {
    let items = vec![
        raw("Foo.ZIP", Some(meta(false, 12, 0))),
        raw(".x", Some(meta(false, 3, 0))),
        raw("dir.d", Some(meta(true, 4096, 0))),
    ];
    let rows = list_items(&items, false);
    assert_eq!(rows.len(), 2);
    assert_eq!(rows[0].name, "Foo.ZIP");
    assert_eq!(rows[0].ext, "zip");
    assert!(rows[0].is_archive);
    assert_eq!(rows[0].size, 12);
    assert!(rows[1].is_dir);
    assert!(!rows[1].is_archive);
    assert_eq!(list_items(&items, true).len(), 3);
}
