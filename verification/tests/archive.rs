use er_commander::archive::{list_zip_dir, part_below, split_dir, ZipItem};

fn item(name: &str, size: u64) -> ZipItem {
    ZipItem { name: name.to_string(), size, is_dir: name.ends_with('/') }
}

fn sample() -> Vec<ZipItem> {
    vec![
        item("top.txt", 7),
        item("dir/", 0),
        item("dir/b.txt", 1),
        item("dir/sub/c.zip", 2),
        item("dir\\sub\\d.txt", 3),
        item("other/x", 4),
    ]
}

#[test]
fn listing_the_root() {
    let rows = list_zip_dir(&sample(), "");
    let names: Vec<&str> = rows.iter().map(|r| r.name.as_str()).collect();
    assert_eq!(names, ["dir", "other", "top.txt"]);
    assert!(rows[0].is_dir);
    assert!(!rows[2].is_dir);
    assert_eq!(rows[2].size, 7);
    assert_eq!(rows[2].ext, "txt");
}

#[test]
fn listing_a_directory() {
    let rows = list_zip_dir(&sample(), "dir/");
    let names: Vec<&str> = rows.iter().map(|r| r.name.as_str()).collect();
    assert_eq!(names, ["sub", "b.txt"]);
    let rows = list_zip_dir(&sample(), "dir/sub/");
    let names: Vec<&str> = rows.iter().map(|r| r.name.as_str()).collect();
    assert_eq!(names, ["c.zip", "d.txt"]);
    assert!(list_zip_dir(&sample(), "nowhere/").is_empty());
}

#[test]
fn parts_below_a_directory() {
    assert_eq!(part_below("dir/a", "dir/"), Some("a".to_string()));
    assert_eq!(part_below("dir/a/b", "dir/"), Some("a/b".to_string()));
    assert_eq!(part_below("dir/", "dir/"), None);
    assert_eq!(part_below("x", "dir/"), None);
    assert_eq!(part_below("dir\\a", "dir/"), Some("a".to_string()));
}

#[test]
fn going_down_and_up_inside() {
    assert_eq!(split_dir("a/b/c/"), ("a/b/".to_string(), "c".to_string()));
    assert_eq!(split_dir("a/"), (String::new(), "a".to_string()));
}
