//! The watch registry and the event-loop dispatch rule: entry counts after a
//! walk, lazy growth on directory creation, retirement on self-deletion, and
//! silent drops.

use inullify::watch::{handle_event, EventAction, WatchEvent, WatchTree};

fn event(wd: u64, name: &[u8]) -> WatchEvent {
    WatchEvent {
        wd,
        created: false,
        self_deleted: false,
        modified: false,
        write_closed: false,
        is_dir: false,
        name: name.to_vec(),
    }
}

#[test]
fn walk_registers_each_directory() {
    // A root with two nested subdirectories: three entries after the walk.
    let mut tree = WatchTree::new();
    assert_eq!(tree.len(), 0);
    tree.insert(1, b"/watched".to_vec());
    tree.insert(2, b"/watched/a".to_vec());
    tree.insert(3, b"/watched/a/b".to_vec());
    assert_eq!(tree.len(), 3);
    assert!(tree.contains(2));
    assert_eq!(tree.resolve(2, b"f"), Some(b"/watched/a/f".to_vec()));
    assert_eq!(tree.resolve(9, b"f"), None);
}

#[test]
fn trailing_slash_root_resolves_without_doubling() {
    let mut tree = WatchTree::new();
    tree.insert(1, b"/watched/".to_vec());
    assert_eq!(tree.resolve(1, b"f"), Some(b"/watched/f".to_vec()));
}

#[test]
fn non_utf8_names_resolve_byte_for_byte() {
    // A child name that is not valid text still resolves to its exact bytes.
    let mut tree = WatchTree::new();
    tree.insert(1, b"/watched".to_vec());
    let name = vec![0xFFu8, 0xFE, b'x'];
    let mut expected = b"/watched/".to_vec();
    expected.extend_from_slice(&name);
    assert_eq!(tree.resolve(1, &name), Some(expected));
}

#[test]
fn reissued_identifier_replaces_its_entry() {
    let mut tree = WatchTree::new();
    tree.insert(1, b"/one".to_vec());
    tree.insert(1, b"/two".to_vec());
    assert_eq!(tree.len(), 1);
    assert_eq!(tree.resolve(1, b"f"), Some(b"/two/f".to_vec()));
}

#[test]
fn created_subdirectory_grows_the_tree_by_one() {
    let mut tree = WatchTree::new();
    tree.insert(1, b"/watched".to_vec());
    let mut e = event(1, b"sub");
    e.created = true;
    e.is_dir = true;
    match handle_event(&mut tree, &e) {
        EventAction::GrowAndNotify { path } => {
            assert_eq!(path, b"/watched/sub".to_vec());
            // The loop registers the new directory and gets a fresh
            // identifier for it.
            tree.insert(2, path);
        },
        _ => panic!("a created directory must grow the tree"),
    }
    assert_eq!(tree.len(), 2);
    // A write inside the new subdirectory now resolves.
    let mut inner = event(2, b"payload");
    inner.write_closed = true;
    match handle_event(&mut tree, &inner) {
        EventAction::Notify { path, is_dir } => {
            assert_eq!(path, b"/watched/sub/payload".to_vec());
            assert!(!is_dir);
        },
        _ => panic!("a write-close on a known directory must notify"),
    }
}

#[test]
fn created_file_notifies_without_growing() {
    let mut tree = WatchTree::new();
    tree.insert(1, b"/watched".to_vec());
    let mut e = event(1, b"upload.bin");
    e.created = true;
    match handle_event(&mut tree, &e) {
        EventAction::Notify { path, is_dir } => {
            assert_eq!(path, b"/watched/upload.bin".to_vec());
            assert!(!is_dir);
        },
        _ => panic!("a created file must notify"),
    }
    assert_eq!(tree.len(), 1);
}

#[test]
fn self_deletion_retires_the_entry() {
    let mut tree = WatchTree::new();
    tree.insert(1, b"/watched".to_vec());
    tree.insert(2, b"/watched/a".to_vec());
    let mut e = event(2, b"");
    e.self_deleted = true;
    match handle_event(&mut tree, &e) {
        EventAction::Retired { path } => assert_eq!(path, b"/watched/a".to_vec()),
        _ => panic!("self-deletion of a known directory must retire it"),
    }
    assert_eq!(tree.len(), 1);
    assert!(!tree.contains(2));
}

#[test]
fn unknown_identifier_is_dropped() {
    let mut tree = WatchTree::new();
    tree.insert(1, b"/watched".to_vec());
    let mut e = event(9, b"x");
    e.created = true;
    assert!(matches!(handle_event(&mut tree, &e), EventAction::Ignore));
    let mut d = event(9, b"");
    d.self_deleted = true;
    assert!(matches!(handle_event(&mut tree, &d), EventAction::Ignore));
    assert_eq!(tree.len(), 1);
}

#[test]
fn unhandled_kinds_are_ignored() {
    let mut tree = WatchTree::new();
    tree.insert(1, b"/watched".to_vec());
    let e = event(1, b"x");
    assert!(matches!(handle_event(&mut tree, &e), EventAction::Ignore));
    assert_eq!(tree.len(), 1);
}

#[test]
fn modification_notifies() {
    let mut tree = WatchTree::new();
    tree.insert(1, b"/watched".to_vec());
    let mut e = event(1, b"f");
    e.modified = true;
    match handle_event(&mut tree, &e) {
        EventAction::Notify { path, is_dir } => {
            assert_eq!(path, b"/watched/f".to_vec());
            assert!(!is_dir);
        },
        _ => panic!("modification on a known directory must notify"),
    }
}

#[test]
fn retiring_twice_is_harmless() {
    let mut tree = WatchTree::new();
    tree.insert(1, b"/watched".to_vec());
    assert_eq!(tree.retire(1), Some(b"/watched".to_vec()));
    assert_eq!(tree.retire(1), None);
    assert_eq!(tree.len(), 0);
}
