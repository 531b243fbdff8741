use parkplatz::db_manage::{
    delete_note, delete_statement, toggle_done_statement, toggle_note_done, SqlValue,
};
use rusqlite::Connection;

fn test_conn() -> Connection {
    let conn = Connection::open_in_memory().expect("in-memory db");
    conn.execute_batch(
        "CREATE TABLE notes (
            id INTEGER PRIMARY KEY AUTOINCREMENT,
            done INTEGER NOT NULL DEFAULT 0
        );",
    )
    .expect("schema");
    conn
}

#[test]
fn toggle_note_done_flips_flag() {
    let conn = test_conn();
    conn.execute("INSERT INTO notes (done) VALUES (?1)", (false,))
        .unwrap();
    let id = conn.last_insert_rowid();

    toggle_note_done(&conn, id, true).unwrap();

    let done: bool = conn
        .query_row("SELECT done FROM notes WHERE id = ?1", (id,), |r| r.get(0))
        .unwrap();
    assert!(done);
}

#[test]
fn toggle_note_done_can_uncheck() {
    let conn = test_conn();
    conn.execute("INSERT INTO notes (done) VALUES (?1)", (true,))
        .unwrap();
    let id = conn.last_insert_rowid();

    toggle_note_done(&conn, id, false).unwrap();

    let done: bool = conn
        .query_row("SELECT done FROM notes WHERE id = ?1", (id,), |r| r.get(0))
        .unwrap();
    assert!(!done);
}

#[test]
fn delete_note_removes_row_permanently() {
    let conn = test_conn();
    conn.execute("INSERT INTO notes (done) VALUES (?1)", (false,))
        .unwrap();
    let id = conn.last_insert_rowid();

    delete_note(&conn, id).unwrap();

    let count: i64 = conn
        .query_row("SELECT COUNT(*) FROM notes WHERE id = ?1", (id,), |r| r.get(0))
        .unwrap();
    assert_eq!(count, 0);
}

#[test]
fn delete_nonexistent_id_is_a_noop_success() {
    let conn = test_conn();
    assert!(delete_note(&conn, 9999).is_ok());
}

#[test]
fn toggle_touches_only_the_given_note() {
    let conn = test_conn();
    conn.execute("INSERT INTO notes (done) VALUES (?1)", (false,)).unwrap();
    let first = conn.last_insert_rowid();
    conn.execute("INSERT INTO notes (done) VALUES (?1)", (false,)).unwrap();
    let second = conn.last_insert_rowid();

    toggle_note_done(&conn, second, true).unwrap();

    let first_done: bool = conn
        .query_row("SELECT done FROM notes WHERE id = ?1", (first,), |r| r.get(0))
        .unwrap();
    let second_done: bool = conn
        .query_row("SELECT done FROM notes WHERE id = ?1", (second,), |r| r.get(0))
        .unwrap();
    assert!(!first_done);
    assert!(second_done);
}

#[test]
fn statements_bind_values_as_parameters() {
    let toggle = toggle_done_statement(42, true);
    assert_eq!(toggle.sql, "UPDATE notes SET done = ?1 WHERE id = ?2");
    assert_eq!(toggle.params, vec![SqlValue::Bool(true), SqlValue::Integer(42)]);
    let other = toggle_done_statement(-7, false);
    assert_eq!(other.sql, toggle.sql);
    let delete = delete_statement(42);
    assert_eq!(delete.sql, "DELETE FROM notes WHERE id = ?1");
    assert_eq!(delete.params, vec![SqlValue::Integer(42)]);
}

#[test]
fn statements_fail_without_the_table() {
    let conn = Connection::open_in_memory().unwrap();
    assert!(toggle_note_done(&conn, 1, true).is_err());
    assert!(delete_note(&conn, 1).is_err());
}
