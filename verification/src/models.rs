//! The values the library works on: parked notes, captured working contexts
//! and the application configuration.
use vstd::prelude::*;

verus! {

/// A parked note ("Zettel") captured at a point in time for a repository/branch.
#[derive(Debug)]
pub struct Note {
    pub id: i64,
    pub repo_path: String,
    pub branch: String,
    pub commit_hash: String,
    pub changed_files: Vec<String>,
    pub note_text: String,
    pub created_at: i64,
    pub done: bool,
}

/// The current working context captured from a git repository.
#[derive(Debug)]
pub struct ContextInfo {
    pub repo_path: String,
    pub branch: String,
    pub commit_hash: String,
    pub changed_files: Vec<String>,
}

/// Application configuration: the directory whose repository is watched in
/// any case.
#[derive(Debug)]
pub struct Config {
    pub workspace_root: String,
}

/// The views of a list of texts.
pub open spec fn texts_view(v: Seq<String>) -> Seq<Seq<char>> {
    v.map_values(|s: String| s@)
}

impl ContextInfo {
    /// Every field is empty: no repository was recognised.
    pub open spec fn is_empty(&self) -> bool {
        &&& self.repo_path@.len() == 0
        &&& self.branch@.len() == 0
        &&& self.commit_hash@.len() == 0
        &&& self.changed_files@.len() == 0
    }
}

} // verus!
