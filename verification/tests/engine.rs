use majdataplay_multiuser::error::LauncherError;
use majdataplay_multiuser::sync::SyncDirection;
use majdataplay_multiuser::user_model::UserManager;

const DB_FILE: &str = "MajDatabase.db.db.db.db.db.db.db.db.db.db.db.db.db.db.db.db.db.db.db.db.db.db.db.db.db.db.db.db";

fn manager_with_root() -> UserManager {
    let mut m = UserManager::new("UserProfile", ".");
    m.load_user_list().expect("creating the profile root cannot fail in the model");
    m
}

#[test]
fn fresh_store_has_no_users() {
    let mut m = UserManager::new("UserProfile", ".");
    assert!(!m.user_exists("alice"));
    m.load_user_list().unwrap();
    assert!(m.users.is_empty());
}

#[test]
fn initialize_creates_root_then_create_succeeds() {
    // Profile root does not exist: initialize creates it and returns an
    // empty list; creating "alice" then succeeds and she exists.
    let mut m = UserManager::new("UserProfile", ".");
    m.load_user_list().unwrap();
    assert!(m.users.is_empty());
    assert!(m.create_user("alice").is_ok());
    assert!(m.user_exists("alice"));
}

#[test]
fn create_without_root_is_io_failure() {
    let mut m = UserManager::new("UserProfile", ".");
    let r = m.create_user("alice");
    assert!(matches!(r, Err(LauncherError::IOFailure)));
}

#[test]
fn create_with_empty_name_is_io_failure() {
    let mut m = manager_with_root();
    let r = m.create_user("");
    assert!(matches!(r, Err(LauncherError::IOFailure)));
}

#[test]
fn created_user_appears_in_enumeration() {
    let mut m = manager_with_root();
    m.create_user("alice").unwrap();
    m.create_user("bob").unwrap();
    m.load_user_list().unwrap();
    assert_eq!(m.users, vec!["alice".to_string(), "bob".to_string()]);
}

#[test]
fn create_existing_user_is_a_no_op() {
    let mut m = manager_with_root();
    m.create_user("alice").unwrap();
    m.write_user_file("alice", "settings.json", b"A".to_vec()).unwrap();
    assert!(m.create_user("alice").is_ok());
    assert_eq!(m.read_user_file("alice", "settings.json"), Some(b"A".to_vec()));
}

#[test]
fn activate_copies_user_files_to_global() {
    let mut m = manager_with_root();
    m.create_user("alice").unwrap();
    m.write_user_file("alice", "settings.json", b"A".to_vec()).unwrap();
    m.write_user_file("alice", DB_FILE, b"DB".to_vec()).unwrap();
    m.sync_global("alice").unwrap();
    assert_eq!(m.read_global_file("settings.json"), Some(b"A".to_vec()));
    assert_eq!(m.read_global_file(DB_FILE), Some(b"DB".to_vec()));
}

#[test]
fn activate_is_idempotent() {
    let mut m = manager_with_root();
    m.create_user("alice").unwrap();
    m.write_user_file("alice", "settings.json", b"A".to_vec()).unwrap();
    m.sync_global("alice").unwrap();
    let settings_once = m.read_global_file("settings.json");
    let db_once = m.read_global_file(DB_FILE);
    m.sync_global("alice").unwrap();
    assert_eq!(m.read_global_file("settings.json"), settings_once);
    assert_eq!(m.read_global_file(DB_FILE), db_once);
}

#[test]
fn round_trip_restores_global_bytes() {
    // Write bytes B to a managed global file, deactivate, then activate:
    // the global file holds B again.
    let mut m = manager_with_root();
    m.create_user("alice").unwrap();
    m.write_global_file("settings.json", b"B-bytes".to_vec());
    m.sync_user("alice").unwrap();
    m.sync_global("alice").unwrap();
    assert_eq!(m.read_global_file("settings.json"), Some(b"B-bytes".to_vec()));
}

#[test]
fn deletion_propagates_to_global() {
    // The user has no copy of the file, the global side has one: after the
    // mirror the global copy is gone.
    let mut m = manager_with_root();
    m.create_user("alice").unwrap();
    m.write_global_file("settings.json", b"stale".to_vec());
    m.sync_file_user2global("alice", "settings.json").unwrap();
    assert_eq!(m.read_global_file("settings.json"), None);
}

#[test]
fn deletion_propagates_to_user() {
    let mut m = manager_with_root();
    m.create_user("alice").unwrap();
    m.write_user_file("alice", "settings.json", b"stale".to_vec()).unwrap();
    m.sync_file_global2user("alice", "settings.json").unwrap();
    assert_eq!(m.read_user_file("alice", "settings.json"), None);
}

#[test]
fn mirror_dispatches_on_direction() {
    let mut m = manager_with_root();
    m.create_user("alice").unwrap();
    m.write_user_file("alice", "settings.json", b"up".to_vec()).unwrap();
    m.mirror(SyncDirection::UserToGlobal, "alice", "settings.json").unwrap();
    assert_eq!(m.read_global_file("settings.json"), Some(b"up".to_vec()));
    m.write_global_file("settings.json", b"down".to_vec());
    m.mirror(SyncDirection::GlobalToUser, "alice", "settings.json").unwrap();
    assert_eq!(m.read_user_file("alice", "settings.json"), Some(b"down".to_vec()));
}

#[test]
fn missing_user_is_reported_and_nothing_is_written() {
    let mut m = manager_with_root();
    m.create_user("alice").unwrap();
    m.write_global_file("settings.json", b"G".to_vec());
    m.write_user_file("alice", "settings.json", b"A".to_vec()).unwrap();

    let r = m.mirror(SyncDirection::UserToGlobal, "ghost", "settings.json");
    assert!(matches!(r, Err(LauncherError::UserNotFound(ref u)) if u == "ghost"));
    let r = m.sync_global("ghost");
    assert!(matches!(r, Err(LauncherError::UserNotFound(ref u)) if u == "ghost"));
    let r = m.sync_user("ghost");
    assert!(matches!(r, Err(LauncherError::UserNotFound(ref u)) if u == "ghost"));

    // No write happened on either side.
    assert_eq!(m.read_global_file("settings.json"), Some(b"G".to_vec()));
    assert_eq!(m.read_user_file("alice", "settings.json"), Some(b"A".to_vec()));
}

#[test]
fn empty_user_name_is_not_found() {
    let mut m = manager_with_root();
    let r = m.sync_file_user2global("", "settings.json");
    assert!(matches!(r, Err(LauncherError::UserNotFound(ref u)) if u.is_empty()));
}

#[test]
fn switch_flushes_then_pulls() {
    // Users "alice" (settings "A", also held globally) and "bob" (no
    // settings): switching from alice to bob deletes the global settings and
    // leaves alice's private copy holding "A".
    let mut m = manager_with_root();
    m.create_user("alice").unwrap();
    m.create_user("bob").unwrap();
    m.write_global_file("settings.json", b"A".to_vec());

    let alice = "alice".to_string();
    let bob = "bob".to_string();
    m.switch_user(Some(&alice), Some(&bob)).unwrap();

    assert_eq!(m.read_global_file("settings.json"), None);
    assert_eq!(m.read_user_file("alice", "settings.json"), Some(b"A".to_vec()));
}

#[test]
fn switch_to_missing_user_keeps_the_flush() {
    let mut m = manager_with_root();
    m.create_user("alice").unwrap();
    m.write_global_file("settings.json", b"A".to_vec());

    let alice = "alice".to_string();
    let ghost = "ghost".to_string();
    let r = m.switch_user(Some(&alice), Some(&ghost));
    assert!(matches!(r, Err(LauncherError::UserNotFound(ref u)) if u == "ghost"));
    // The flush into alice's directory already happened.
    assert_eq!(m.read_user_file("alice", "settings.json"), Some(b"A".to_vec()));
}

#[test]
fn switch_from_missing_user_aborts() {
    let mut m = manager_with_root();
    m.create_user("bob").unwrap();
    m.write_user_file("bob", "settings.json", b"B".to_vec()).unwrap();
    m.write_global_file("settings.json", b"G".to_vec());

    let ghost = "ghost".to_string();
    let bob = "bob".to_string();
    let r = m.switch_user(Some(&ghost), Some(&bob));
    assert!(matches!(r, Err(LauncherError::UserNotFound(ref u)) if u == "ghost"));
    // Bob was never activated.
    assert_eq!(m.read_global_file("settings.json"), Some(b"G".to_vec()));
}

#[test]
fn prepare_launch_without_user_fails() {
    let mut m = manager_with_root();
    let r = m.prepare_launch(None);
    assert!(matches!(r, Err(LauncherError::NoUserPresentOnLaunch)));
}

#[test]
fn prepare_launch_refreshes_global() {
    let mut m = manager_with_root();
    m.create_user("alice").unwrap();
    m.write_user_file("alice", "settings.json", b"fresh".to_vec()).unwrap();
    m.write_global_file("settings.json", b"stale".to_vec());
    let alice = "alice".to_string();
    m.prepare_launch(Some(&alice)).unwrap();
    assert_eq!(m.read_global_file("settings.json"), Some(b"fresh".to_vec()));
}

#[test]
fn paths_resolve_by_direction() {
    let m = UserManager::new("/opt/launcher/UserProfile", "/opt/launcher");
    let (src, dst) = m.resolve_paths(SyncDirection::UserToGlobal, "alice", "settings.json");
    assert_eq!(src, "/opt/launcher/UserProfile/alice/settings.json");
    assert_eq!(dst, "/opt/launcher/settings.json");
    let (src, dst) = m.resolve_paths(SyncDirection::GlobalToUser, "alice", "settings.json");
    assert_eq!(src, "/opt/launcher/settings.json");
    assert_eq!(dst, "/opt/launcher/UserProfile/alice/settings.json");
}

#[test]
fn overwrite_is_last_writer_wins() {
    let mut m = manager_with_root();
    m.create_user("alice").unwrap();
    m.write_user_file("alice", "settings.json", b"first".to_vec()).unwrap();
    m.write_user_file("alice", "settings.json", b"second".to_vec()).unwrap();
    m.write_global_file("settings.json", b"old".to_vec());
    m.sync_file_user2global("alice", "settings.json").unwrap();
    assert_eq!(m.read_global_file("settings.json"), Some(b"second".to_vec()));
}

#[test]
fn remove_global_file_deletes() {
    let mut m = manager_with_root();
    m.write_global_file(DB_FILE, b"payload".to_vec());
    assert_eq!(m.read_global_file(DB_FILE), Some(b"payload".to_vec()));
    m.remove_global_file(DB_FILE);
    assert_eq!(m.read_global_file(DB_FILE), None);
    // Deleting an absent file stays a no-op.
    m.remove_global_file(DB_FILE);
    assert_eq!(m.read_global_file(DB_FILE), None);
}

#[test]
fn write_user_file_for_missing_user_fails() {
    let mut m = manager_with_root();
    let r = m.write_user_file("ghost", "settings.json", b"x".to_vec());
    assert!(matches!(r, Err(LauncherError::UserNotFound(ref u)) if u == "ghost"));
}

#[test]
fn sync_touches_only_managed_files() {
    let mut m = manager_with_root();
    m.create_user("alice").unwrap();
    m.write_global_file("unrelated.txt", b"keep".to_vec());
    m.sync_global("alice").unwrap();
    assert_eq!(m.read_global_file("unrelated.txt"), Some(b"keep".to_vec()));
}
