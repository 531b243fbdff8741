//! The note store: an SQLite database under the application's data directory.
//!
//! Opening the database file is I/O and is done by the application; the
//! operations here work on an open connection.
use vstd::prelude::*;

use crate::models::{texts_view, ContextInfo, Note};
use crate::paths::{join_path, spec_join};

verus! {

/// `rusqlite::Connection`, an open SQLite database.
#[verifier::external_type_specification]
#[verifier::external_body]
pub struct ExConnection(rusqlite::Connection);

/// The name of the database file inside the application's data directory.
pub const DB_FILE_NAME: &'static str = "notes.db";

/// The database file inside the application's data directory `data_dir`.
pub fn db_path(data_dir: &str) -> (r: String)
    ensures
        r@ == spec_join(data_dir@, DB_FILE_NAME@),
{
    join_path(data_dir, DB_FILE_NAME)
}

/// Initializes the database schema. The schema is not created yet: this
/// leaves the database as it is.
pub fn init(_conn: &rusqlite::Connection) {
}

/// Persists a note for the given context.
///
/// Persistence is not implemented yet: the note that would be stored is
/// returned, carrying the context and the text, with id 0, creation time 0
/// and not done.
pub fn save_note(_conn: &rusqlite::Connection, text: String, ctx: &ContextInfo) -> (r: Result<
    Note,
    String,
>)
    ensures
        r is Ok,
        r matches Ok(n) && {
            &&& n.id == 0
            &&& n.repo_path@ == ctx.repo_path@
            &&& n.branch@ == ctx.branch@
            &&& n.commit_hash@ == ctx.commit_hash@
            &&& texts_view(n.changed_files@) == texts_view(ctx.changed_files@)
            &&& n.note_text@ == text@
            &&& n.created_at == 0
            &&& !n.done
        },
{
    let changed_files = clone_texts(&ctx.changed_files);
    Ok(
        Note {
            id: 0,
            repo_path: ctx.repo_path.clone(),
            branch: ctx.branch.clone(),
            commit_hash: ctx.commit_hash.clone(),
            changed_files,
            note_text: text,
            created_at: 0,
            done: false,
        },
    )
}

/// A copy of a list of texts.
pub fn clone_texts(v: &Vec<String>) -> (r: Vec<String>)
    ensures
        texts_view(r@) == texts_view(v@),
{
    let mut r: Vec<String> = Vec::new();
    let mut i: usize = 0;
    while i < v.len()
        invariant
            i <= v.len(),
            texts_view(r@) == texts_view(v@.take(i as int)),
        decreases v.len() - i,
    {
        r.push(v[i].clone());
        assert(texts_view(v@.take(i + 1)) =~= texts_view(v@.take(i as int)).push(v@[i as int]@));
        assert(texts_view(r@) =~= texts_view(v@.take(i + 1)));
        i = i + 1;
    }
    assert(v@.take(v.len() as int) =~= v@);
    r
}

/// Lists notes, optionally filtered by a search string. Querying is not
/// implemented yet: the list is empty, the state an empty store shows.
pub fn list_notes(_conn: &rusqlite::Connection, _search: &str) -> (r: Result<Vec<Note>, String>)
    ensures
        r matches Ok(v) && v@.len() == 0,
{
    Ok(Vec::new())
}

/// Lists the distinct repository paths present in the database. Not
/// implemented yet: the list is empty.
pub fn list_known_repos(_conn: &rusqlite::Connection) -> (r: Result<Vec<String>, String>)
    ensures
        r matches Ok(v) && v@.len() == 0,
{
    Ok(Vec::new())
}

/// Returns the most recent note for a repository/branch pair, if any. Not
/// implemented yet: there is none.
pub fn latest_for_branch(_conn: &rusqlite::Connection, _repo: &str, _branch: &str) -> (r: Result<
    Option<Note>,
    String,
>)
    ensures
        r matches Ok(o) && o is None,
{
    Ok(None)
}

} // verus!
