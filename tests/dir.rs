use para_dt::dir::{entry_abspath, filter_dot_entries, is_dot_entry, prepare_entries, DirEntryInfo};
use para_dt::options::Order;

fn listing(names: &[&str]) -> Vec<DirEntryInfo> {
    names
        .iter()
        .map(|n| DirEntryInfo {
            name: n.as_bytes().to_vec(),
            is_dir: n.ends_with('d'),
        })
        .collect()
}

fn names(v: &[DirEntryInfo]) -> Vec<String> {
    v.iter().map(|e| String::from_utf8(e.name.clone()).unwrap()).collect()
}

#[test]
fn dot_names_are_recognised() {
    assert!(is_dot_entry(b"."));
    assert!(is_dot_entry(b".."));
    assert!(!is_dot_entry(b"..."));
    assert!(!is_dot_entry(b".a"));
    assert!(!is_dot_entry(b""));
}

#[test]
fn filter_drops_only_dot_entries() {
    let v = filter_dot_entries(listing(&["b", ".", "a", "..", ".hidden"]));
    assert_eq!(names(&v), vec!["b", "a", ".hidden"]);
}

#[test]
fn alphabetical_sorts_by_bytes() {
    let v = prepare_entries(listing(&["b", ".", "a", "..", "c", "B"]), Order::Alphabetical);
    assert_eq!(names(&v), vec!["B", "a", "b", "c"]);
}

#[test]
fn readdir_and_unordered_keep_listing_order() {
    let v = prepare_entries(listing(&["b", ".", "a", "c"]), Order::Readdir);
    assert_eq!(names(&v), vec!["b", "a", "c"]);
    let v = prepare_entries(listing(&["..", "z", "y"]), Order::Unordered);
    assert_eq!(names(&v), vec!["z", "y"]);
}

#[test]
fn empty_listing_stays_empty() {
    let v = prepare_entries(listing(&[".", ".."]), Order::Alphabetical);
    assert!(v.is_empty());
}

#[test]
fn prefix_name_sorts_first() {
    let v = prepare_entries(listing(&["ab", "a", "abc"]), Order::Alphabetical);
    assert_eq!(names(&v), vec!["a", "ab", "abc"]);
}

#[test]
fn abspath_inserts_separator() {
    assert_eq!(entry_abspath(b"root", b"a"), b"root/a".to_vec());
    assert_eq!(entry_abspath(b"root/", b"a"), b"root/a".to_vec());
    assert_eq!(entry_abspath(b"/", b"etc"), b"/etc".to_vec());
    assert_eq!(entry_abspath(b"", b"a"), b"a".to_vec());
}
