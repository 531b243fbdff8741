use parkplatz::db::{db_path, init, latest_for_branch, list_known_repos, list_notes, save_note};
use parkplatz::models::ContextInfo;
use rusqlite::Connection;

#[test]
fn save_note_carries_context_and_text() {
    let conn = Connection::open_in_memory().unwrap();
    init(&conn);
    let ctx = ContextInfo {
        repo_path: "/home/dev/repo".to_string(),
        branch: "feature/x".to_string(),
        commit_hash: "abc123".to_string(),
        changed_files: vec!["src/a.rs".to_string(), "src/b.rs".to_string()],
    };
    let note = save_note(&conn, "Weiter an der Login-Seite arbeiten".to_string(), &ctx).unwrap();
    assert_eq!(note.id, 0);
    assert_eq!(note.repo_path, "/home/dev/repo");
    assert_eq!(note.branch, "feature/x");
    assert_eq!(note.commit_hash, "abc123");
    assert_eq!(note.changed_files, vec!["src/a.rs".to_string(), "src/b.rs".to_string()]);
    assert_eq!(note.note_text, "Weiter an der Login-Seite arbeiten");
    assert_eq!(note.created_at, 0);
    assert!(!note.done);
}

#[test]
fn queries_are_empty_until_notes_are_stored() {
    let conn = Connection::open_in_memory().unwrap();
    assert!(list_notes(&conn, "").unwrap().is_empty());
    assert!(list_notes(&conn, "login").unwrap().is_empty());
    assert!(list_known_repos(&conn).unwrap().is_empty());
    assert!(latest_for_branch(&conn, "/repo", "main").unwrap().is_none());
}

#[test]
fn database_file_lives_in_the_data_dir() {
    assert_eq!(db_path("/home/dev/.local/share/parkplatz"), "/home/dev/.local/share/parkplatz/notes.db");
}
