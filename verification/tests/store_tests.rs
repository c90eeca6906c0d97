use bookmarks::store::{Bookmark, BookmarkStore, Point, StoreError};

fn sample(label: &str, row: u32) -> Bookmark {
    Bookmark::new(
        label,
        format!("src/{}.rs", label.len()),
        format!("/project/src/{}.rs", label.len()),
        Point { row, column: 4 },
    )
}

#[test]
fn bookmark_accessors() {
    let b = Bookmark::new(
        "fix bug",
        String::from("src/main.rs"),
        String::from("/project/src/main.rs"),
        Point { row: 3, column: 7 },
    );
    assert_eq!(b.label().as_str(), "fix bug");
    assert_eq!(b.project_path().as_str(), "src/main.rs");
    assert_eq!(b.abs_path().as_str(), "/project/src/main.rs");
    assert_eq!(b.point(), Point { row: 3, column: 7 });
}

#[test]
fn bookmark_clone_keeps_fields() {
    let b = sample("alpha", 1);
    let c = b.clone();
    assert_eq!(c.label(), b.label());
    assert_eq!(c.project_path(), b.project_path());
    assert_eq!(c.abs_path(), b.abs_path());
    assert_eq!(c.point(), b.point());
}

#[test]
fn append_get_length() {
    let mut s = BookmarkStore::new();
    assert_eq!(s.length(), 0);
    s.append(sample("one", 1));
    s.append(sample("two", 2));
    assert_eq!(s.length(), 2);
    assert_eq!(s.get(0).unwrap().label().as_str(), "one");
    assert_eq!(s.get(1).unwrap().label().as_str(), "two");
    assert!(s.get(2).is_none());
}

#[test]
fn remove_at_shifts_positions() {
    let mut s = BookmarkStore::new();
    s.append(sample("one", 1));
    s.append(sample("two", 2));
    s.append(sample("three", 3));
    let removed = s.remove_at(0).unwrap();
    assert_eq!(removed.label().as_str(), "one");
    assert_eq!(s.length(), 2);
    assert_eq!(s.get(0).unwrap().label().as_str(), "two");
    assert_eq!(s.get(1).unwrap().label().as_str(), "three");
}

#[test]
fn remove_at_out_of_range() {
    let mut s = BookmarkStore::new();
    s.append(sample("one", 1));
    let r = s.remove_at(1);
    assert_eq!(r.err().unwrap(), StoreError::OutOfRange);
    assert_eq!(s.length(), 1);
    assert_eq!(s.get(0).unwrap().label().as_str(), "one");
}
