//! Capturing the current working context from a git repository.
//!
//! Everything is read through `git2` (libgit2): no shell and no subprocess.
//! What a repository holds is on disk, so the library states how the context
//! is assembled from what `git2` reports, not what `git2` reports.
use vstd::prelude::*;

use crate::models::{texts_view, ContextInfo};
use crate::paths::opt_view;
use crate::text::{chars_of, string_from_range};

verus! {

/// `git2::Repository`, an open repository.
#[verifier::external_type_specification]
#[verifier::external_body]
pub struct ExRepository(git2::Repository);

/// `git2::Reference`, a reference such as `HEAD`.
#[verifier::external_type_specification]
#[verifier::external_body]
pub struct ExReference<'repo>(git2::Reference<'repo>);

/// `git2::Error`, what a failed libgit2 call reports.
#[verifier::external_type_specification]
#[verifier::external_body]
pub struct ExGitError(git2::Error);

/// `Repository::open`: opens the repository at `path`.
#[verifier::external_body]
fn repository_open(path: &str) -> (r: Result<git2::Repository, git2::Error>) {
    git2::Repository::open(path)
}

/// `Repository::discover`: opens the repository at or above `path`.
#[verifier::external_body]
fn repository_discover(path: &str) -> (r: Result<git2::Repository, git2::Error>) {
    git2::Repository::discover(path)
}

/// `Repository::workdir`: the working directory, `None` for a bare repository.
#[verifier::external_body]
fn repository_workdir(repo: &git2::Repository) -> (r: Option<String>) {
    repo.workdir().map(|p| p.to_string_lossy().into_owned())
}

/// `Repository::head`: the reference `HEAD` resolves to.
#[verifier::external_body]
fn repository_head(repo: &git2::Repository) -> (r: Result<git2::Reference<'_>, git2::Error>) {
    repo.head()
}

/// `Reference::shorthand`: the human-readable name of a reference, such as
/// the branch name.
#[verifier::external_body]
fn reference_shorthand(head: &git2::Reference<'_>) -> (r: Result<String, git2::Error>) {
    head.shorthand().map(|s| s.to_string())
}

/// A git object id (SHA-1) written out as `Oid`'s `Display` does: 40
/// lower-case hexadecimal digits.
pub open spec fn is_object_id_hex(s: Seq<char>) -> bool {
    &&& s.len() == 40
    &&& forall|i: int| 0 <= i < s.len() ==> ('0' <= #[trigger] s[i] <= '9' || 'a' <= s[i] <= 'f')
}

/// `Reference::target`: the object id a direct reference points at, written
/// out by `Oid`'s `Display` (libgit2's `git_oid_tostr`), which gives the 40
/// lower-case hexadecimal digits of a SHA-1 id (this build has no SHA-256
/// object ids). Which id it is depends on the repository on disk and is not
/// stated.
#[verifier::external_body]
fn reference_target(head: &git2::Reference<'_>) -> (r: Option<String>)
    ensures
        r matches Some(h) ==> is_object_id_hex(h@),
{
    head.target().map(|oid| oid.to_string())
}

/// `Repository::statuses` with libgit2's default options: for every entry of
/// the status list, its path (`None` where the path is not UTF-8) and its
/// status flags (`Status::bits`); `None` when the list cannot be read.
#[verifier::external_body]
fn repository_status_entries(repo: &git2::Repository) -> (r: Option<Vec<(Option<String>, u32)>>) {
    repo.statuses(None).ok().map(
        |statuses|
            statuses.iter().map(
                |entry| (entry.path().ok().map(|p| p.to_string()), entry.status().bits()),
            ).collect(),
    )
}

/// The status flag of an ignored path (`git2::Status::IGNORED`, libgit2's
/// `GIT_STATUS_IGNORED`).
pub const STATUS_IGNORED: u32 = 0x4000;

/// A status entry with these flags is a changed file: it differs from `HEAD`
/// or the index (no flag is `GIT_STATUS_CURRENT`) and is not ignored.
pub open spec fn is_changed_status(flags: u32) -> bool {
    flags != 0 && flags & STATUS_IGNORED == 0
}

/// The changed files among the status entries `s`, in order: every readable
/// path whose flags mark a change.
pub open spec fn changed_paths(s: Seq<(Option<String>, u32)>) -> Seq<Seq<char>>
    decreases s.len(),
{
    if s.len() == 0 {
        seq![]
    } else {
        changed_paths(s.drop_last()) + match s.last().0 {
            Some(t) => if is_changed_status(s.last().1) {
                seq![t@]
            } else {
                seq![]
            },
            None => seq![],
        }
    }
}

/// A working directory as a path without trailing separators (the root `/`
/// stays).
pub open spec fn without_trailing_slash(s: Seq<char>) -> Seq<char>
    decreases s.len(),
{
    if s.len() > 1 && s.last() == '/' {
        without_trailing_slash(s.drop_last())
    } else {
        s
    }
}

/// The text of `o`, or the empty text.
pub open spec fn text_or_empty(o: Option<Seq<char>>) -> Seq<char> {
    match o {
        Some(t) => t,
        None => seq![],
    }
}

/// The changed files of a repository from its status entries: every
/// readable path that is changed and not ignored, in order; none when the
/// status list could not be read.
pub fn changed_files_from(status: Option<Vec<(Option<String>, u32)>>) -> (r: Vec<String>)
    ensures
        texts_view(r@) == match status {
            Some(v) => changed_paths(v@),
            None => seq![],
        },
{
    let mut files: Vec<String> = Vec::new();
    match status {
        None => {
            assert(texts_view(files@) =~= seq![]);
        },
        Some(entries) => {
            let mut i: usize = 0;
            assert(entries@.take(0) =~= Seq::<(Option<String>, u32)>::empty());
            assert(texts_view(files@) =~= seq![]);
            while i < entries.len()
                invariant
                    i <= entries.len(),
                    texts_view(files@) == changed_paths(entries@.take(i as int)),
                decreases entries.len() - i,
            {
                assert(entries@.take(i + 1).drop_last() =~= entries@.take(i as int));
                assert(entries@.take(i + 1).last() == entries@[i as int]);
                let flags = entries[i].1;
                match &entries[i].0 {
                    Some(p) => {
                        if flags != 0 && flags & STATUS_IGNORED == 0 {
                            files.push(p.clone());
                        }
                        assert(texts_view(files@) =~= changed_paths(entries@.take(i + 1)));
                    },
                    None => {
                        assert(texts_view(files@) =~= changed_paths(entries@.take(i + 1)));
                    },
                }
                i = i + 1;
            }
            assert(entries@.take(entries.len() as int) =~= entries@);
        },
    }
    files
}

/// `path` without trailing separators, the root `/` kept.
pub fn trim_trailing_slash(path: String) -> (r: String)
    ensures
        r@ == without_trailing_slash(path@),
{
    let v = chars_of(path.as_str());
    let mut n = v.len();
    assert(v@.take(n as int) =~= v@);
    while n > 1 && v[n - 1] == '/'
        invariant
            n <= v.len(),
            without_trailing_slash(v@.take(n as int)) == without_trailing_slash(v@),
        decreases n,
    {
        assert(v@.take(n as int).drop_last() =~= v@.take(n - 1));
        n = n - 1;
    }
    string_from_range(&v, 0, n)
}

/// A context with every field empty: no repository was recognised.
pub fn empty_context() -> (c: ContextInfo)
    ensures
        c.is_empty(),
{
    ContextInfo {
        repo_path: String::new(),
        branch: String::new(),
        commit_hash: String::new(),
        changed_files: Vec::new(),
    }
}

fn text_or_default(o: Option<String>) -> (r: String)
    ensures
        r@ == text_or_empty(opt_view(o)),
{
    match o {
        Some(t) => t,
        None => String::new(),
    }
}

/// The context of a repository from what git reports of it: its working
/// directory (without trailing separator), the short name of `HEAD` (the
/// branch), the object id `HEAD` points at, and its changed files. Whatever
/// is missing is left empty.
pub fn context_from_parts(
    workdir: Option<String>,
    branch: Option<String>,
    commit_hash: Option<String>,
    status: Option<Vec<(Option<String>, u32)>>,
) -> (c: ContextInfo)
    ensures
        c.repo_path@ == without_trailing_slash(text_or_empty(opt_view(workdir))),
        c.branch@ == text_or_empty(opt_view(branch)),
        c.commit_hash@ == text_or_empty(opt_view(commit_hash)),
        texts_view(c.changed_files@) == match status {
            Some(v) => changed_paths(v@),
            None => seq![],
        },
{
    ContextInfo {
        repo_path: trim_trailing_slash(text_or_default(workdir)),
        branch: text_or_default(branch),
        commit_hash: text_or_default(commit_hash),
        changed_files: changed_files_from(status),
    }
}

/// The branch `HEAD` of `repo` is on, if `HEAD` can be resolved.
fn current_branch(repo: &git2::Repository) -> (r: Option<String>) {
    match repository_head(repo) {
        Ok(head) => match reference_shorthand(&head) {
            Ok(name) => Some(name),
            Err(_) => None,
        },
        Err(_) => None,
    }
}

/// The commit `HEAD` of `repo` points at, in hexadecimal, if `HEAD` can be
/// resolved to one.
fn head_commit_hash(repo: &git2::Repository) -> (r: Option<String>)
    ensures
        r matches Some(h) ==> is_object_id_hex(h@),
{
    match repository_head(repo) {
        Ok(head) => reference_target(&head),
        Err(_) => None,
    }
}

/// The context of `repo`, or the empty context when there is no repository.
pub fn context_from_repo(repo: Option<git2::Repository>) -> (c: ContextInfo)
    ensures
        repo is None ==> c.is_empty(),
        c.commit_hash@.len() == 0 || is_object_id_hex(c.commit_hash@),
{
    match repo {
        None => empty_context(),
        Some(repo) => {
            let workdir = repository_workdir(&repo);
            let branch = current_branch(&repo);
            let commit_hash = head_commit_hash(&repo);
            let status = repository_status_entries(&repo);
            context_from_parts(workdir, branch, commit_hash, status)
        },
    }
}

/// How a repository is located: opened at a path, or discovered at or above it.
#[derive(Clone, Copy, Debug, PartialEq, Eq, Structural)]
pub enum RepoLookup {
    Open,
    Discover,
}

/// Where the working context is read from: the active repository, opened at
/// its path, when there is one; otherwise the repository discovered at or
/// above `start_dir`, the directory the application was started in.
pub open spec fn spec_repo_location(active_repo: Option<Seq<char>>, start_dir: Seq<char>) -> (
    Seq<char>,
    RepoLookup,
) {
    match active_repo {
        Some(p) => (p, RepoLookup::Open),
        None => (start_dir, RepoLookup::Discover),
    }
}

/// Where the working context is read from, and how the repository there is
/// located.
pub fn repo_location(active_repo: Option<String>, start_dir: &str) -> (r: (String, RepoLookup))
    ensures
        (r.0@, r.1) == spec_repo_location(opt_view(active_repo), start_dir@),
{
    match active_repo {
        Some(path) => (path, RepoLookup::Open),
        None => (String::from_str(start_dir), RepoLookup::Discover),
    }
}

/// Captures the current working context from the active git repository.
///
/// The active repository is the one the watcher last saw switch branches
/// (`active_repo`). When none is known, a repository is discovered from
/// `start_dir`, the directory the application was started in (see
/// `repo_location`). When no repository can be recognised at all, every
/// field is left empty.
///
/// The commit hash is empty or the 40 hexadecimal digits of a commit id; the
/// other fields are what git reports of the repository on disk.
pub fn capture_context(active_repo: Option<String>, start_dir: &str) -> (c: ContextInfo)
    ensures
        c.commit_hash@.len() == 0 || is_object_id_hex(c.commit_hash@),
{
    let (location, lookup) = repo_location(active_repo, start_dir);
    let repo = match lookup {
        RepoLookup::Open => repository_open(location.as_str()).ok(),
        RepoLookup::Discover => repository_discover(location.as_str()).ok(),
    };
    context_from_repo(repo)
}

} // verus!
