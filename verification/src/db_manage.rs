//! Managing parked notes: checking them off and deleting them.
//!
//! Every statement has fixed SQL text; the values it works on are bound as
//! parameters, so no value is ever interpolated into the SQL.
use vstd::prelude::*;

verus! {

/// `rusqlite::Error`, what a failed statement reports.
#[verifier::external_type_specification]
#[verifier::external_body]
pub struct ExSqliteError(rusqlite::Error);

/// A value bound to a statement parameter.
#[derive(Clone, Copy, Debug, PartialEq, Eq, Structural)]
pub enum SqlValue {
    Bool(bool),
    Integer(i64),
}

/// An SQL statement with the values of its parameters `?1`, `?2`, ... in order.
#[derive(Debug)]
pub struct SqlStatement {
    pub sql: &'static str,
    pub params: Vec<SqlValue>,
}

/// Sets the `done` flag of the note with id `?2` to `?1`.
pub const TOGGLE_DONE_SQL: &'static str = "UPDATE notes SET done = ?1 WHERE id = ?2";

/// Deletes the note with id `?1`.
pub const DELETE_NOTE_SQL: &'static str = "DELETE FROM notes WHERE id = ?1";

/// The view of a statement: its SQL text and its parameter values.
pub open spec fn statement_view(s: SqlStatement) -> (Seq<char>, Seq<SqlValue>) {
    (s.sql@, s.params@)
}

/// The statement that marks note `id` as done (`done`) or not done.
pub open spec fn spec_toggle_done_statement(id: i64, done: bool) -> (Seq<char>, Seq<SqlValue>) {
    (TOGGLE_DONE_SQL@, seq![SqlValue::Bool(done), SqlValue::Integer(id)])
}

/// The statement that deletes note `id`.
pub open spec fn spec_delete_statement(id: i64) -> (Seq<char>, Seq<SqlValue>) {
    (DELETE_NOTE_SQL@, seq![SqlValue::Integer(id)])
}

/// The SQL text of both statements is the same for every note and every flag:
/// the id and the flag reach the database only as bound parameters.
pub proof fn lemma_statement_text_is_fixed(id1: i64, done1: bool, id2: i64, done2: bool)
    ensures
        spec_toggle_done_statement(id1, done1).0 == spec_toggle_done_statement(id2, done2).0,
        spec_delete_statement(id1).0 == spec_delete_statement(id2).0,
        spec_toggle_done_statement(id1, done1).1[0] == SqlValue::Bool(done1),
        spec_toggle_done_statement(id1, done1).1[1] == SqlValue::Integer(id1),
        spec_delete_statement(id1).1[0] == SqlValue::Integer(id1),
{
}

/// The statement that marks note `id` as done or not done.
pub fn toggle_done_statement(id: i64, done: bool) -> (s: SqlStatement)
    ensures
        statement_view(s) == spec_toggle_done_statement(id, done),
{
    let s = SqlStatement { sql: TOGGLE_DONE_SQL, params: vec![SqlValue::Bool(done), SqlValue::Integer(id)] };
    assert(s.params@ =~= seq![SqlValue::Bool(done), SqlValue::Integer(id)]);
    s
}

/// The statement that deletes note `id`.
pub fn delete_statement(id: i64) -> (s: SqlStatement)
    ensures
        statement_view(s) == spec_delete_statement(id),
{
    let s = SqlStatement { sql: DELETE_NOTE_SQL, params: vec![SqlValue::Integer(id)] };
    assert(s.params@ =~= seq![SqlValue::Integer(id)]);
    s
}

/// `rusqlite::Connection::execute`: runs `sql` with `params` bound to
/// `?1`, `?2`, ... and returns the number of rows changed. What it changes and
/// whether it succeeds depend on the database, so nothing is stated.
#[verifier::external_body]
fn execute(conn: &rusqlite::Connection, sql: &str, params: &Vec<SqlValue>) -> (r: Result<
    usize,
    rusqlite::Error,
>) {
    let values = params.iter().map(
        |p| match p {
            SqlValue::Bool(b) => rusqlite::types::Value::from(*b),
            SqlValue::Integer(i) => rusqlite::types::Value::from(*i),
        },
    );
    conn.execute(sql, rusqlite::params_from_iter(values))
}

/// Runs a statement; its outcome is the database's.
pub fn run_statement(conn: &rusqlite::Connection, statement: &SqlStatement) -> (r: Result<
    (),
    rusqlite::Error,
>) {
    match execute(conn, statement.sql, &statement.params) {
        Ok(_) => Ok(()),
        Err(e) => Err(e),
    }
}

/// Marks a note as done/undone by its primary key: runs the statement of
/// `toggle_done_statement(id, done)`.
pub fn toggle_note_done(conn: &rusqlite::Connection, id: i64, done: bool) -> (r: Result<
    (),
    rusqlite::Error,
>) {
    let statement = toggle_done_statement(id, done);
    run_statement(conn, &statement)
}

/// Permanently removes a note from the `notes` table: runs the statement of
/// `delete_statement(id)`. Deleting an id that does not exist changes nothing.
pub fn delete_note(conn: &rusqlite::Connection, id: i64) -> (r: Result<(), rusqlite::Error>) {
    let statement = delete_statement(id);
    run_statement(conn, &statement)
}

} // verus!
