//! Scenario tests of the vault session lifecycle.

use passman::errors::VaultError;
use passman::session::{PasswordEntry, VaultSession};

#[test]
fn vault_lifecycle_add_logout_login_reveal() {
    let mut s = VaultSession::new();
    s.login("hunter2").unwrap();
    let id = s.add_entry("example.com".to_string(), "alice".to_string(), "s3cr3t");
    s.logout();
    assert!(!s.is_logged_in());
    s.login("hunter2").unwrap();
    assert!(s.is_logged_in());
    assert_eq!(s.reveal_entry(id).unwrap(), "s3cr3t");
}

#[test]
fn wrong_master_password_leaves_session_logged_out() {
    let mut s = VaultSession::new();
    s.login("hunter2").unwrap();
    s.add_entry("example.com".to_string(), "alice".to_string(), "s3cr3t");
    s.logout();
    assert_eq!(s.login("wrong").unwrap_err(), VaultError::AuthenticationFailure);
    assert!(!s.is_logged_in());
}

#[test]
fn empty_store_accepts_any_password_on_first_run() {
    let mut s = VaultSession::new();
    s.login("anything at all").unwrap();
    assert!(s.is_logged_in());
    assert_eq!(s.list_entries().len(), 0);
}

#[test]
fn deletion_removes_the_id_and_the_vault_stays_consistent() {
    let mut s = VaultSession::new();
    s.login("hunter2").unwrap();
    let id_a = s.add_entry("a.com".to_string(), "alice".to_string(), "pw-a");
    let id_b = s.add_entry("b.com".to_string(), "bob".to_string(), "pw-b");
    s.delete_entry(id_a).unwrap();
    assert!(s.list_entries().iter().all(|e| e.id != id_a));
    assert_eq!(s.list_entries().len(), 1);
    s.logout();
    s.login("hunter2").unwrap();
    assert_eq!(s.reveal_entry(id_b).unwrap(), "pw-b");
    assert!(s.reveal_entry(id_a).is_none());
}

#[test]
fn deleting_an_absent_id_is_not_found() {
    let mut s = VaultSession::new();
    s.login("hunter2").unwrap();
    assert_eq!(s.delete_entry(41).unwrap_err(), VaultError::NotFound);
}

#[test]
fn ids_are_not_reused_after_deletion() {
    let mut s = VaultSession::new();
    s.login("hunter2").unwrap();
    let id_a = s.add_entry("a.com".to_string(), "alice".to_string(), "pw-a");
    s.delete_entry(id_a).unwrap();
    let id_b = s.add_entry("b.com".to_string(), "bob".to_string(), "pw-b");
    assert_ne!(id_a, id_b);
}

#[test]
fn empty_secret_survives_the_lifecycle() {
    let mut s = VaultSession::new();
    s.login("hunter2").unwrap();
    let id = s.add_entry("example.com".to_string(), "alice".to_string(), "");
    s.logout();
    s.login("hunter2").unwrap();
    assert_eq!(s.reveal_entry(id).unwrap(), "");
}

#[test]
fn loaded_rows_unlock_under_their_sealing_password() {
    let sealed = passman::envelope::encrypt("hunter2", "row secret").unwrap();
    let row = PasswordEntry {
        id: 7,
        site: "rows.example".to_string(),
        username: "carol".to_string(),
        password: sealed,
    };
    let mut s = VaultSession::new();
    s.load_entries(vec![row]);
    s.login("hunter2").unwrap();
    assert_eq!(s.reveal_entry(7).unwrap(), "row secret");
    let id = s.add_entry("next.example".to_string(), "dave".to_string(), "x");
    assert!(id > 7);
}

#[test]
fn corrupted_row_fails_login() {
    let row = PasswordEntry {
        id: 1,
        site: "rows.example".to_string(),
        username: "carol".to_string(),
        password: "@@not an envelope@@".to_string(),
    };
    let mut s = VaultSession::new();
    s.load_entries(vec![row]);
    assert_eq!(s.login("hunter2").unwrap_err(), VaultError::MalformedEnvelope);
    assert!(!s.is_logged_in());
}
