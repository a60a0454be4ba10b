use er_commander::entry::{DirSort, FileEntry, SortColumn, SortDir, Time};
use er_commander::sort::{order_rows, order_texts, sort_entries, sort_entries_by, Order};

fn row(name: &str, is_dir: bool, size: u64, secs: Option<i64>, readonly: bool) -> FileEntry {
    let ext = if is_dir {
        String::new()
    } else {
        er_commander::entry::lower_extension_of(name)
    };
    FileEntry {
        name: name.to_string(),
        ext,
        is_dir,
        size,
        is_archive: false,
        modified: secs.map(|secs| Time { secs, nanos: 0 }),
        readonly,
        dir_size: None,
    }
}

fn sample() -> Vec<FileEntry> {
    vec![
        row("b.txt", false, 3, Some(30), false),
        row("Zdir", true, 0, Some(10), false),
        row("A.rs", false, 9, None, true),
        row("adir", true, 5, Some(20), false),
        row("a.txt", false, 3, Some(40), false),
    ]
}

fn names(rows: &[FileEntry]) -> Vec<String> {
    rows.iter().map(|r| r.name.clone()).collect()
}

fn ordered(col: SortColumn, dir: SortDir, dir_sort: DirSort) -> Vec<String> {
    let mut rows = sample();
    sort_entries_by(&mut rows, col, dir, dir_sort);
    names(&rows)
}

#[test]
fn by_name_directories_first() {
    let mut rows = sample();
    sort_entries(&mut rows);
    assert_eq!(names(&rows), ["adir", "Zdir", "A.rs", "a.txt", "b.txt"]);
}

#[test]
fn descending_keeps_directories_first() {
    assert_eq!(
        ordered(SortColumn::Name, SortDir::Desc, DirSort::FirstByCol),
        ["Zdir", "adir", "b.txt", "a.txt", "A.rs"]
    );
    assert_eq!(
        ordered(SortColumn::Name, SortDir::Desc, DirSort::FirstByName),
        ["adir", "Zdir", "b.txt", "a.txt", "A.rs"]
    );
}

#[test]
fn mixed_by_size_and_date() {
    assert_eq!(
        ordered(SortColumn::Size, SortDir::Asc, DirSort::Mixed),
        ["Zdir", "b.txt", "a.txt", "adir", "A.rs"]
    );
    assert_eq!(
        ordered(SortColumn::Date, SortDir::Asc, DirSort::Mixed),
        ["A.rs", "Zdir", "adir", "b.txt", "a.txt"]
    );
}

#[test]
fn by_extension_and_attribute() {
    assert_eq!(
        ordered(SortColumn::Ext, SortDir::Asc, DirSort::FirstByCol),
        ["adir", "Zdir", "A.rs", "a.txt", "b.txt"]
    );
    assert_eq!(
        ordered(SortColumn::Attr, SortDir::Desc, DirSort::Mixed),
        ["A.rs", "b.txt", "Zdir", "adir", "a.txt"]
    );
}

#[test]
fn ordering_twice_changes_nothing() {
    for col in [SortColumn::Name, SortColumn::Ext, SortColumn::Size, SortColumn::Date, SortColumn::Attr] {
        for dir in [SortDir::Asc, SortDir::Desc] {
            for ds in [DirSort::Mixed, DirSort::FirstByCol, DirSort::FirstByName] {
                let mut rows = sample();
                sort_entries_by(&mut rows, col, dir, ds);
                let once = names(&rows);
                sort_entries_by(&mut rows, col, dir, ds);
                assert_eq!(names(&rows), once);
                for i in 0..rows.len() {
                    for j in i..rows.len() {
                        assert_ne!(order_rows(&rows[i], &rows[j], col, dir, ds), Order::Behind);
                        let back = order_rows(&rows[j], &rows[i], col, dir, ds);
                        assert_eq!(back, order_rows(&rows[i], &rows[j], col, dir, ds).flip());
                    }
                }
            }
        }
    }
}

#[test]
fn level_rows_keep_their_order() {
    let mut rows: Vec<FileEntry> = Vec::new();
    for i in 0..50u64 {
        rows.push(row(&format!("f{}", i), false, i % 3, None, false));
    }
    sort_entries_by(&mut rows, SortColumn::Size, SortDir::Asc, DirSort::Mixed);
    let mut expected: Vec<u64> = (0..50).collect();
    expected.sort_by_key(|i| i % 3);
    let expected: Vec<String> = expected.iter().map(|i| format!("f{}", i)).collect();
    assert_eq!(names(&rows), expected);
}

#[test]
fn texts_by_code_points() {
    assert_eq!(order_texts("a", "b"), Order::Before);
    assert_eq!(order_texts("a", "a"), Order::Level);
    assert_eq!(order_texts("ab", "a"), Order::Behind);
    assert_eq!(order_texts("z", "č"), Order::Before);
    assert_eq!(order_texts("", "a"), Order::Before);
}
