//! Tests of the in-memory credential collection.

use passman::passwordmanager::PasswordManager;

fn manager_with(entries: &[(&str, &str, &str)]) -> PasswordManager {
    let mut m = PasswordManager::new();
    for (site, user, pass) in entries {
        m.add_entry(site.to_string(), user.to_string(), pass.to_string());
    }
    m
}

#[test]
fn new_manager_is_empty() {
    let m = PasswordManager::new();
    assert_eq!(m.entries.len(), 0);
}

#[test]
fn add_entry_appends_in_order() {
    let m = manager_with(&[("a.com", "alice", "pw1"), ("b.com", "bob", "pw2")]);
    assert_eq!(m.entries.len(), 2);
    assert_eq!(m.entries[0].site, "a.com");
    assert_eq!(m.entries[1].username, "bob");
}

#[test]
fn get_entry_finds_first_match() {
    let m = manager_with(&[
        ("a.com", "alice", "pw1"),
        ("dup.com", "first", "pw2"),
        ("dup.com", "second", "pw3"),
    ]);
    let e = m.get_entry("dup.com").unwrap();
    assert_eq!(e.username, "first");
    assert!(m.get_entry("absent.com").is_none());
}

#[test]
fn remove_entry_drops_every_match() {
    let mut m = manager_with(&[
        ("dup.com", "first", "pw1"),
        ("keep.com", "alice", "pw2"),
        ("dup.com", "second", "pw3"),
    ]);
    m.remove_entry("dup.com");
    assert_eq!(m.entries.len(), 1);
    assert_eq!(m.entries[0].site, "keep.com");
}

#[test]
fn update_entry_changes_first_match_only() {
    let mut m = manager_with(&[
        ("dup.com", "first", "pw1"),
        ("dup.com", "second", "pw2"),
    ]);
    m.update_entry("dup.com", "renamed".to_string(), "newpw".to_string());
    assert_eq!(m.entries[0].username, "renamed");
    assert_eq!(m.entries[0].password, "newpw");
    assert_eq!(m.entries[0].site, "dup.com");
    assert_eq!(m.entries[1].username, "second");
    assert_eq!(m.entries[1].password, "pw2");
}

#[test]
fn update_entry_without_match_changes_nothing() {
    let mut m = manager_with(&[("a.com", "alice", "pw1")]);
    m.update_entry("absent.com", "x".to_string(), "y".to_string());
    assert_eq!(m.entries.len(), 1);
    assert_eq!(m.entries[0].username, "alice");
    assert_eq!(m.entries[0].password, "pw1");
}
