//! Deciding what the `.git/HEAD` watcher does.
//!
//! The application watches the `.git` directory of every known repository and
//! reports each file-system event here. When a repository's `HEAD` changes, it
//! becomes the active repository; when it now names a branch on which a
//! not-yet-done note is parked, that note is announced. The watch list is
//! rebuilt from the configured workspace root plus every known repository.
//! Reading files and watching directories is the application's; what is
//! read is interpreted, and what is watched is decided, here.
use vstd::prelude::*;

use crate::db::latest_for_branch;
use crate::models::{texts_view, Note};
use crate::paths::{
    after_last_slash, file_name, is_normal_component, is_simple_dir, join_path,
    lemma_join_last_component, opt_view, parent, path_eq, path_lt, plain_path, simple_file_name,
    simple_parent, spec_join, std_file_name, std_parent, std_path_eq, std_path_lt,
};
use crate::text::{
    chars_of, is_white_space, range_starts_with, starts_with, string_from_range, strip_prefix, trim,
    trim_bounds, trim_end, trim_start, trim_start_bound, trim_start_matches,
};

verus! {

/// What a `HEAD` file that is on a branch begins with, before the branch name.
pub const HEAD_REF_PREFIX: &'static str = "ref: refs/heads/";

/// The key of the line of a `.git` file that points at the git directory of a
/// linked worktree.
pub const GITDIR_KEY: &'static str = "gitdir:";

/// The name of a repository's git directory inside its working directory.
pub const DOT_GIT: &'static str = ".git";

/// The name of the file that records what is checked out.
pub const HEAD_FILE_NAME: &'static str = "HEAD";

/// The branch a `HEAD` file with the text `content` is on: a normal `HEAD`
/// reads `ref: refs/heads/<branch>`; a detached `HEAD` holds a commit hash
/// and is on no branch.
pub open spec fn spec_branch_from_head(content: Seq<char>) -> Option<Seq<char>> {
    strip_prefix(trim(content), HEAD_REF_PREFIX@)
}

/// The index of the first line feed in `s`, or its length when it has none.
pub open spec fn line_end(s: Seq<char>) -> nat
    decreases s.len(),
{
    if s.len() == 0 || s[0] == '\n' {
        0
    } else {
        1 + line_end(s.drop_first())
    }
}

/// A line without the carriage return that ended it.
pub open spec fn strip_cr(l: Seq<char>) -> Seq<char> {
    if l.len() > 0 && l.last() == '\r' {
        l.drop_last()
    } else {
        l
    }
}

/// The lines of `s` as `str::lines` gives them: split after each line feed,
/// the line feed and a carriage return before it removed; a last line
/// without line feed is kept as it is; no line follows a final line feed.
pub open spec fn lines(s: Seq<char>) -> Seq<Seq<char>>
    decreases s.len(),
{
    if s.len() == 0 {
        seq![]
    } else if line_end(s) >= s.len() {
        seq![s]
    } else {
        seq![strip_cr(s.take(line_end(s) as int))] + lines(s.skip(line_end(s) as int + 1))
    }
}

/// The line names the git directory: it begins, after white space, with `gitdir:`.
pub open spec fn is_gitdir_line(line: Seq<char>) -> bool {
    starts_with(trim_start(line), GITDIR_KEY@)
}

/// The first line of `ls` that names the git directory.
pub open spec fn first_gitdir_line(ls: Seq<Seq<char>>) -> Option<Seq<char>>
    decreases ls.len(),
{
    if ls.len() == 0 {
        None
    } else if is_gitdir_line(ls[0]) {
        Some(ls[0])
    } else {
        first_gitdir_line(ls.drop_first())
    }
}

/// The git directory a `.git` file with the text `content` points at: the
/// value of its first `gitdir:` line, trimmed, unless it is empty.
pub open spec fn spec_gitdir_from_file(content: Seq<char>) -> Option<Seq<char>> {
    match first_gitdir_line(lines(content)) {
        None => None,
        Some(line) => {
            let value = trim(trim_start_matches(trim_start(line), GITDIR_KEY@));
            if value.len() == 0 {
                None
            } else {
                Some(value)
            }
        },
    }
}

proof fn lemma_line_end(s: Seq<char>, e: int)
    requires
        0 <= e <= s.len(),
        forall|k: int| 0 <= k < e ==> s[k] != '\n',
        e == s.len() || s[e] == '\n',
    ensures
        line_end(s) == e,
    decreases e,
{
    if e > 0 {
        lemma_line_end(s.drop_first(), e - 1);
    }
}

/// The branch the `HEAD` file with the text `content` is on; `None` for a
/// detached `HEAD` and for a `HEAD` file that could not be read (`None`).
pub fn branch_from_head(content: Option<String>) -> (r: Option<String>)
    ensures
        opt_view(r) == match opt_view(content) {
            Some(c) => spec_branch_from_head(c),
            None => None,
        },
{
    match content {
        None => None,
        Some(text) => {
            let v = chars_of(text.as_str());
            let (a, b) = trim_bounds(&v, 0, v.len());
            assert(v@.subrange(0, v.len() as int) =~= v@);
            let prefix = chars_of(HEAD_REF_PREFIX);
            if range_starts_with(&v, a, b, &prefix) {
                let r = string_from_range(&v, a + prefix.len(), b);
                assert(v@.subrange(a as int, b as int).skip(prefix.len() as int) =~= v@.subrange(
                    a + prefix.len(),
                    b as int,
                ));
                Some(r)
            } else {
                None
            }
        },
    }
}

/// The value of the `gitdir:` line `v[lo..hi]`, if it is not empty.
fn gitdir_value(v: &Vec<char>, lo: usize, hi: usize, key: &Vec<char>) -> (r: Option<String>)
    requires
        lo <= hi <= v.len(),
        key@ == GITDIR_KEY@,
    ensures
        opt_view(r) == ({
            let value = trim(trim_start_matches(trim_start(v@.subrange(lo as int, hi as int)), key@));
            if value.len() == 0 {
                None
            } else {
                Some(value)
            }
        }),
{
    let mut a = trim_start_bound(v, lo, hi);
    assert(key@.len() > 0) by {
        reveal_strlit("gitdir:");
    }
    while range_starts_with(v, a, hi, key)
        invariant
            lo <= a <= hi <= v.len(),
            key@.len() > 0,
            trim_start_matches(v@.subrange(a as int, hi as int), key@) == trim_start_matches(
                trim_start(v@.subrange(lo as int, hi as int)),
                key@,
            ),
        decreases hi - a,
    {
        assert(v@.subrange(a as int, hi as int).skip(key@.len() as int) =~= v@.subrange(
            a + key@.len(),
            hi as int,
        ));
        a = a + key.len();
    }
    let (c, d) = trim_bounds(v, a, hi);
    if c == d {
        None
    } else {
        Some(string_from_range(v, c, d))
    }
}

/// The git directory a `.git` file with the text `content` points at, as
/// linked worktrees have it: `gitdir: <path>`.
pub fn gitdir_from_file(content: &str) -> (r: Option<String>)
    ensures
        opt_view(r) == spec_gitdir_from_file(content@),
{
    let v = chars_of(content);
    let key = chars_of(GITDIR_KEY);
    let n = v.len();
    let mut start: usize = 0;
    assert(v@.skip(0) =~= v@);
    while start < n
        invariant
            n == v.len(),
            v@ == content@,
            start <= n,
            key@ == GITDIR_KEY@,
            first_gitdir_line(lines(v@.skip(start as int))) == first_gitdir_line(lines(v@)),
        decreases n - start,
    {
        let ghost s = v@.skip(start as int);
        let mut end = start;
        while end < n && v[end] != '\n'
            invariant
                start <= end <= n,
                n == v.len(),
                forall|k: int| start <= k < end ==> v@[k] != '\n',
            decreases n - end,
        {
            end = end + 1;
        }
        proof {
            lemma_line_end(s, end - start);
        }
        let mut line_hi = end;
        if end < n && end > start && v[end - 1] == '\r' {
            line_hi = end - 1;
        }
        proof {
            assert(s.take(end - start) =~= v@.subrange(start as int, end as int));
            if end < n {
                assert(strip_cr(s.take(end - start)) =~= v@.subrange(start as int, line_hi as int));
                assert(s.skip(end - start + 1) =~= v@.skip(end + 1));
            } else {
                assert(s =~= v@.subrange(start as int, line_hi as int));
            }
            let ls = lines(s);
            assert(ls[0] == v@.subrange(start as int, line_hi as int));
            if end < n {
                assert(ls.drop_first() =~= lines(v@.skip(end + 1)));
            } else {
                assert(ls.drop_first() =~= Seq::<Seq<char>>::empty());
                assert(v@.skip(n as int) =~= Seq::<char>::empty());
            }
        }
        let a = trim_start_bound(&v, start, line_hi);
        if range_starts_with(&v, a, line_hi, &key) {
            proof {
                let line = v@.subrange(start as int, line_hi as int);
                assert(is_gitdir_line(line));
                assert(lines(s).len() > 0);
                assert(lines(s)[0] == line);
                assert(first_gitdir_line(lines(s)) == Some(line));
            }
            let r = gitdir_value(&v, start, line_hi, &key);
            return r;
        }
        if end == n {
            start = n;
        } else {
            start = end + 1;
        }
    }
    assert(v@.skip(n as int) =~= Seq::<char>::empty());
    None
}

/// What is found at a repository's `.git`: nothing readable, a directory (the
/// git directory itself), or a file (a linked worktree's pointer to its git
/// directory) with its text, `None` when it could not be read.
#[derive(Debug)]
pub enum DotGit {
    Missing,
    Directory,
    File(Option<String>),
}

/// A `gitdir:` value that names its directory on its own: it begins with a
/// separator, or with a drive letter and `:` as git writes it on Windows.
pub open spec fn is_rooted_gitdir(value: Seq<char>) -> bool {
    ||| value.len() > 0 && (value[0] == '/' || value[0] == '\\')
    ||| value.len() >= 2 && value[1] == ':' && (('a' <= value[0] && value[0] <= 'z') || ('A'
        <= value[0] && value[0] <= 'Z'))
}

/// Where a `gitdir:` value points for the repository at `repo_path`: a rooted
/// value as it stands; any other is relative to the directory holding the
/// `.git` file, the repository itself.
pub open spec fn spec_resolve_gitdir(repo_path: Seq<char>, value: Seq<char>) -> Seq<char> {
    if is_rooted_gitdir(value) {
        value
    } else {
        spec_join(repo_path, value)
    }
}

/// The git directory of the repository at `repo_path`, given what was found
/// at its `.git`.
pub open spec fn spec_git_dir(repo_path: Seq<char>, dot_git: DotGit) -> Option<Seq<char>> {
    match dot_git {
        DotGit::Missing => None,
        DotGit::Directory => Some(spec_join(repo_path, DOT_GIT@)),
        DotGit::File(None) => None,
        DotGit::File(Some(content)) => match spec_gitdir_from_file(content@) {
            Some(value) => Some(spec_resolve_gitdir(repo_path, value)),
            None => None,
        },
    }
}

/// The `HEAD` file of the repository at `repo_path`, given what was found at
/// its `.git`.
pub open spec fn spec_head_path(repo_path: Seq<char>, dot_git: DotGit) -> Option<Seq<char>> {
    match spec_git_dir(repo_path, dot_git) {
        Some(dir) => Some(spec_join(dir, HEAD_FILE_NAME@)),
        None => None,
    }
}

/// Where a repository's `.git` is: the place the caller looks at to tell
/// what `DotGit` it is.
pub fn dot_git_path(repo_path: &str) -> (r: String)
    ensures
        r@ == spec_join(repo_path@, DOT_GIT@),
{
    join_path(repo_path, DOT_GIT)
}

/// Where the `gitdir:` value `value` points for the repository at
/// `repo_path`.
pub fn resolve_gitdir(repo_path: &str, value: String) -> (r: String)
    ensures
        r@ == spec_resolve_gitdir(repo_path@, value@),
{
    let n = value.as_str().unicode_len();
    let rooted = if n == 0 {
        false
    } else {
        let c0 = value.as_str().get_char(0);
        if c0 == '/' || c0 == '\\' {
            true
        } else if n >= 2 && value.as_str().get_char(1) == ':' {
            ('a' <= c0 && c0 <= 'z') || ('A' <= c0 && c0 <= 'Z')
        } else {
            false
        }
    };
    if rooted {
        value
    } else {
        join_path(repo_path, value.as_str())
    }
}

/// Resolves the git directory of a repository, following the `gitdir:`
/// indirection used by linked worktrees and submodules (where `.git` is a
/// plain file, not a directory); a relative `gitdir:` is resolved against
/// the repository's directory.
pub fn git_dir(repo_path: &str, dot_git: &DotGit) -> (r: Option<String>)
    ensures
        opt_view(r) == spec_git_dir(repo_path@, *dot_git),
{
    match dot_git {
        DotGit::Missing => None,
        DotGit::Directory => Some(dot_git_path(repo_path)),
        DotGit::File(None) => None,
        DotGit::File(Some(content)) => match gitdir_from_file(content.as_str()) {
            Some(value) => Some(resolve_gitdir(repo_path, value)),
            None => None,
        },
    }
}

/// The `.git/HEAD` path for a repository, if it can be located. It ends in
/// the component `HEAD` (see `lemma_head_path_in_git_dir` for what
/// `Path::file_name` and `Path::parent` give for it).
pub fn head_path(repo_path: &str, dot_git: &DotGit) -> (r: Option<String>)
    ensures
        opt_view(r) == spec_head_path(repo_path@, *dot_git),
        r matches Some(h) ==> after_last_slash(h@) == HEAD_FILE_NAME@,
{
    proof {
        lemma_head_path_in_git_dir(repo_path@, *dot_git);
    }
    match git_dir(repo_path, dot_git) {
        Some(dir) => Some(join_path(dir.as_str(), HEAD_FILE_NAME)),
        None => None,
    }
}

/// The path names a file literally called `HEAD`.
pub open spec fn spec_is_head_path(path: Seq<char>) -> bool {
    std_file_name(path) == Some(HEAD_FILE_NAME@)
}

/// True when the final component of `path` is `HEAD`: so for every plain
/// path that ends in `/HEAD` (or is `HEAD`).
pub fn is_head_path(path: &str) -> (b: bool)
    ensures
        b == spec_is_head_path(path@),
        plain_path(path@) && after_last_slash(path@) == HEAD_FILE_NAME@ ==> b,
{
    proof {
        reveal_strlit("HEAD");
        assert(HEAD_FILE_NAME@.len() == 4);
        assert(HEAD_FILE_NAME@ != seq!['.']);
        assert(HEAD_FILE_NAME@ != seq!['.', '.']);
    }
    match file_name(path) {
        Some(name) => name == String::from_str(HEAD_FILE_NAME),
        None => false,
    }
}

/// The kind of a file-system event (the variants of `notify::EventKind`).
#[derive(Clone, Copy, Debug, PartialEq, Eq, Structural)]
pub enum WatchEventKind {
    Any,
    Access,
    Create,
    Modify,
    Remove,
    Other,
}

/// A file-system event: what happened, and to which paths.
#[derive(Debug)]
pub struct WatchEvent {
    pub kind: WatchEventKind,
    pub paths: Vec<String>,
}

/// Some path of `paths` names a `HEAD` file.
pub open spec fn touches_head(paths: Seq<Seq<char>>) -> bool {
    exists|i: int| 0 <= i < paths.len() && spec_is_head_path(#[trigger] paths[i])
}

/// An event that created or changed a file named `HEAD` (or did anything at all to one).
pub open spec fn spec_is_head_event(kind: WatchEventKind, paths: Seq<Seq<char>>) -> bool {
    match kind {
        WatchEventKind::Modify | WatchEventKind::Create | WatchEventKind::Any => touches_head(paths),
        _ => false,
    }
}

/// A plain path whose last component is `HEAD`.
pub open spec fn ends_in_head(p: Seq<char>) -> bool {
    plain_path(p) && after_last_slash(p) == HEAD_FILE_NAME@
}

/// The kinds of event that can change a file: creating, modifying, or any.
pub open spec fn may_change_file(kind: WatchEventKind) -> bool {
    kind == WatchEventKind::Modify || kind == WatchEventKind::Create || kind == WatchEventKind::Any
}

/// True when an event creates, modifies or otherwise touches a file literally
/// named `HEAD`: so whenever such an event names a plain path ending in
/// `/HEAD`.
pub fn is_head_event(event: &WatchEvent) -> (b: bool)
    ensures
        b == spec_is_head_event(event.kind, event.paths@.map_values(|p: String| p@)),
        forall|q: int|
            #![trigger event.paths@[q]]
            0 <= q < event.paths.len() && may_change_file(event.kind) && ends_in_head(
                event.paths@[q]@,
            ) ==> b,
{
    let ghost paths = event.paths@.map_values(|p: String| p@);
    match event.kind {
        WatchEventKind::Modify | WatchEventKind::Create | WatchEventKind::Any => {
            let mut i: usize = 0;
            while i < event.paths.len()
                invariant
                    i <= event.paths.len(),
                    paths == event.paths@.map_values(|p: String| p@),
                    event.kind == WatchEventKind::Modify || event.kind == WatchEventKind::Create
                        || event.kind == WatchEventKind::Any,
                    forall|k: int| 0 <= k < i ==> !spec_is_head_path(#[trigger] paths[k]),
                    forall|k: int|
                        #![trigger event.paths@[k]]
                        0 <= k < i ==> !ends_in_head(event.paths@[k]@),
                decreases event.paths.len() - i,
            {
                if is_head_path(event.paths[i].as_str()) {
                    assert(spec_is_head_path(paths[i as int]));
                    return true;
                }
                i = i + 1;
            }
            false
        },
        _ => false,
    }
}

/// A table from `HEAD` paths to the repositories they belong to, in the order
/// the repositories were registered.
pub struct HeadEntries {
    entries: Vec<(String, String)>,
}

/// The repository registered under a path equal to `path` (`Path`'s `==`),
/// the first one where several are.
pub open spec fn lookup(m: Seq<(Seq<char>, Seq<char>)>, path: Seq<char>) -> Option<Seq<char>>
    decreases m.len(),
{
    if m.len() == 0 {
        None
    } else if std_path_eq(path, m[0].0) {
        Some(m[0].1)
    } else {
        lookup(m.drop_first(), path)
    }
}

/// Every registered path ends in the component `HEAD`.
pub open spec fn keys_end_in_head(m: Seq<(Seq<char>, Seq<char>)>) -> bool {
    forall|k: int| 0 <= k < m.len() ==> after_last_slash(#[trigger] m[k].0) == HEAD_FILE_NAME@
}

/// No `HEAD` path is registered twice: no later key equals an earlier one.
pub open spec fn keys_distinct(m: Seq<(Seq<char>, Seq<char>)>) -> bool {
    forall|i: int, j: int| 0 <= i < j < m.len() ==> !std_path_eq(#[trigger] m[j].0, #[trigger] m[i].0)
}

proof fn lemma_lookup_first(m: Seq<(Seq<char>, Seq<char>)>, path: Seq<char>, i: int)
    requires
        0 <= i <= m.len(),
        forall|k: int| 0 <= k < i ==> !std_path_eq(path, #[trigger] m[k].0),
        i < m.len() ==> std_path_eq(path, m[i].0),
    ensures
        lookup(m, path) == (if i < m.len() {
            Some(m[i].1)
        } else {
            None::<Seq<char>>
        }),
    decreases i,
{
    if i > 0 {
        assert(!std_path_eq(path, m[0].0));
        let t = m.drop_first();
        assert forall|k: int| 0 <= k < i - 1 implies !std_path_eq(path, #[trigger] t[k].0) by {
            assert(t[k] == m[k + 1]);
        }
        lemma_lookup_first(t, path, i - 1);
    }
}

proof fn lemma_lookup_none(m: Seq<(Seq<char>, Seq<char>)>, path: Seq<char>)
    requires
        lookup(m, path) is None,
    ensures
        forall|k: int| 0 <= k < m.len() ==> !std_path_eq(path, #[trigger] m[k].0),
    decreases m.len(),
{
    if m.len() > 0 {
        let t = m.drop_first();
        lemma_lookup_none(t, path);
        assert forall|k: int| 0 <= k < m.len() implies !std_path_eq(path, #[trigger] m[k].0) by {
            if k > 0 {
                assert(m[k] == t[k - 1]);
            }
        }
    }
}

impl View for HeadEntries {
    type V = Seq<(Seq<char>, Seq<char>)>;

    closed spec fn view(&self) -> Seq<(Seq<char>, Seq<char>)> {
        self.entries@.map_values(|e: (String, String)| (e.0@, e.1@))
    }
}

/// A repository to watch: its path and what was found at its `.git`.
#[derive(Debug)]
pub struct RepoCandidate {
    pub repo_path: String,
    pub dot_git: DotGit,
}

/// The table after registering the repository at `repo_path`: its `HEAD`
/// path is added unless it cannot be located or is registered already (the
/// first registration stays).
pub open spec fn spec_collect_repo(
    m: Seq<(Seq<char>, Seq<char>)>,
    repo_path: Seq<char>,
    dot_git: DotGit,
) -> Seq<(Seq<char>, Seq<char>)> {
    match spec_head_path(repo_path, dot_git) {
        None => m,
        Some(head) => if lookup(m, head) is Some {
            m
        } else {
            m.push((head, repo_path))
        },
    }
}

/// The table that registers the repositories of `candidates` in order.
pub open spec fn spec_build_entries(candidates: Seq<RepoCandidate>) -> Seq<(Seq<char>, Seq<char>)>
    decreases candidates.len(),
{
    if candidates.len() == 0 {
        seq![]
    } else {
        spec_collect_repo(
            spec_build_entries(candidates.drop_last()),
            candidates.last().repo_path@,
            candidates.last().dot_git,
        )
    }
}

impl HeadEntries {
    /// No `HEAD` path is registered twice, and every registered path ends in
    /// `HEAD`.
    #[verifier::type_invariant]
    spec fn well_formed(&self) -> bool {
        keys_distinct(self@) && keys_end_in_head(self@)
    }

    /// An empty table.
    pub fn new() -> (r: HeadEntries)
        ensures
            r@ == Seq::<(Seq<char>, Seq<char>)>::empty(),
    {
        let r = HeadEntries { entries: Vec::new() };
        assert(r@ =~= Seq::<(Seq<char>, Seq<char>)>::empty());
        r
    }

    /// The number of registered `HEAD` paths.
    pub fn len(&self) -> (n: usize)
        ensures
            n == self@.len(),
    {
        self.entries.len()
    }

    /// The repository registered under `path`: the one registered under a
    /// path equal to it, so the one registered under `path` itself.
    pub fn get(&self, path: &str) -> (r: Option<String>)
        ensures
            opt_view(r) == lookup(self@, path@),
            forall|j: int|
                #![trigger self@[j]]
                0 <= j < self@.len() && self@[j].0 == path@ ==> opt_view(r) == Some(self@[j].1),
    {
        proof {
            use_type_invariant(self);
        }
        let mut i: usize = 0;
        while i < self.entries.len()
            invariant
                i <= self.entries.len(),
                keys_distinct(self@),
                forall|k: int| 0 <= k < i ==> !std_path_eq(path@, #[trigger] self@[k].0),
                forall|k: int| 0 <= k < i ==> #[trigger] self@[k].0 != path@,
            decreases self.entries.len() - i,
        {
            if path_eq(path, self.entries[i].0.as_str()) {
                proof {
                    lemma_lookup_first(self@, path@, i as int);
                    assert forall|j: int|
                        #![trigger self@[j]]
                        0 <= j < self@.len() && self@[j].0 == path@ implies j == i by {
                        if j > i {
                            assert(!std_path_eq(self@[j].0, self@[i as int].0));
                        }
                    }
                }
                return Some(self.entries[i].1.clone());
            }
            assert(self@[i as int].0 == self.entries@[i as int].0@);
            i = i + 1;
        }
        proof {
            lemma_lookup_first(self@, path@, i as int);
        }
        None
    }

    /// The registered `HEAD` paths, in order.
    pub fn heads(&self) -> (r: Vec<String>)
        ensures
            texts_view(r@) == self@.map_values(|e: (Seq<char>, Seq<char>)| e.0),
    {
        let mut r: Vec<String> = Vec::new();
        let mut i: usize = 0;
        while i < self.entries.len()
            invariant
                i <= self.entries.len(),
                texts_view(r@) == self@.take(i as int).map_values(
                    |e: (Seq<char>, Seq<char>)| e.0,
                ),
            decreases self.entries.len() - i,
        {
            let ghost before = texts_view(r@);
            let key = self.entries[i].0.clone();
            assert(key@ == self@[i as int].0);
            r.push(key);
            assert(texts_view(r@) =~= before.push(self@[i as int].0));
            assert(self@.take(i + 1).map_values(|e: (Seq<char>, Seq<char>)| e.0) =~= self@.take(
                i as int,
            ).map_values(|e: (Seq<char>, Seq<char>)| e.0).push(self@[i as int].0));
            i = i + 1;
        }
        assert(self@.take(self.entries.len() as int) =~= self@);
        r
    }

    /// Registers the repository at `repo_path` under its `HEAD` path, unless
    /// the path cannot be located or a repository is registered under it
    /// already. Registering never makes a `HEAD` path appear twice.
    pub fn collect_repo(&mut self, repo_path: &str, dot_git: &DotGit)
        ensures
            final(self)@ == spec_collect_repo(old(self)@, repo_path@, *dot_git),
            keys_distinct(final(self)@),
            keys_end_in_head(final(self)@),
    {
        proof {
            use_type_invariant(&*self);
        }
        if let Some(head) = head_path(repo_path, dot_git) {
            if self.get(head.as_str()).is_none() {
                proof {
                    lemma_lookup_none(self@, head@);
                }
                let ghost before = self@;
                let mut entries: Vec<(String, String)> = Vec::new();
                std::mem::swap(&mut entries, &mut self.entries);
                assert(entries@.map_values(|e: (String, String)| (e.0@, e.1@)) == before);
                entries.push((head, String::from_str(repo_path)));
                let ghost after = entries@.map_values(|e: (String, String)| (e.0@, e.1@));
                assert(after =~= before.push((head@, repo_path@)));
                assert(keys_distinct(after));
                assert(keys_end_in_head(after)) by {
                    lemma_head_path_in_git_dir(repo_path@, *dot_git);
                    assert forall|k: int| 0 <= k < after.len() implies after_last_slash(
                        #[trigger] after[k].0,
                    ) == HEAD_FILE_NAME@ by {
                        if k < before.len() {
                            assert(after[k] == before[k]);
                        }
                    }
                }
                self.entries = entries;
            }
        }
        proof {
            use_type_invariant(&*self);
        }
    }
}

/// The repositories the watcher observes, in the order they are registered:
/// the configured workspace root first, then every known repository.
pub fn watched_repositories(workspace_root: String, known_repos: Vec<String>) -> (r: Vec<String>)
    ensures
        texts_view(r@) == seq![workspace_root@] + texts_view(known_repos@),
{
    let ghost root = workspace_root@;
    let mut r: Vec<String> = Vec::new();
    r.push(workspace_root);
    let mut i: usize = 0;
    assert(texts_view(r@) =~= seq![root] + texts_view(known_repos@.take(0)));
    while i < known_repos.len()
        invariant
            i <= known_repos.len(),
            texts_view(r@) == seq![root] + texts_view(known_repos@.take(i as int)),
        decreases known_repos.len() - i,
    {
        let ghost before = texts_view(r@);
        let repo = known_repos[i].clone();
        assert(repo@ == known_repos@[i as int]@);
        r.push(repo);
        assert(texts_view(r@) =~= before.push(known_repos@[i as int]@));
        assert(texts_view(known_repos@.take(i + 1)) =~= texts_view(known_repos@.take(i as int)).push(
            known_repos@[i as int]@,
        ));
        assert(texts_view(r@) =~= seq![root] + texts_view(known_repos@.take(i + 1)));
        i = i + 1;
    }
    assert(known_repos@.take(known_repos.len() as int) =~= known_repos@);
    r
}

/// `head` is registered in `m`: as it is, or as a path equal to it.
pub open spec fn is_registered(m: Seq<(Seq<char>, Seq<char>)>, head: Seq<char>) -> bool {
    exists|k: int| 0 <= k < m.len() && (#[trigger] m[k].0 == head || std_path_eq(head, m[k].0))
}

/// The `HEAD` path of candidate `c`, if it can be located.
pub open spec fn candidate_head(c: RepoCandidate) -> Option<Seq<char>> {
    spec_head_path(c.repo_path@, c.dot_git)
}

/// Collects the `HEAD` path -> repository table for every repository the
/// watcher must observe (the configured workspace root, then every known
/// repository), registering `candidates` in order. Every candidate whose
/// `HEAD` path can be located is registered; every entry is the `HEAD` path
/// of a candidate under that candidate's path; a single candidate gives the
/// table of its `HEAD` path alone.
pub fn build_entries(candidates: &Vec<RepoCandidate>) -> (r: HeadEntries)
    ensures
        r@ == spec_build_entries(candidates@),
        keys_distinct(r@),
        keys_end_in_head(r@),
        forall|i: int|
            0 <= i < candidates.len() && #[trigger] candidate_head(candidates@[i]) is Some
                ==> is_registered(r@, candidate_head(candidates@[i])->0),
        forall|k: int|
            0 <= k < r@.len() ==> exists|i: int|
                0 <= i < candidates.len() && #[trigger] candidate_head(candidates@[i]) == Some(
                    (#[trigger] r@[k]).0,
                ) && r@[k].1 == candidates@[i].repo_path@,
        r@.len() <= candidates.len(),
        candidates.len() == 1 ==> r@ == match candidate_head(candidates@[0]) {
            Some(h) => seq![(h, candidates@[0].repo_path@)],
            None => seq![],
        },
{
    let mut entries = HeadEntries::new();
    proof {
        use_type_invariant(&entries);
    }
    let mut i: usize = 0;
    assert(candidates@.take(0) =~= Seq::<RepoCandidate>::empty());
    while i < candidates.len()
        invariant
            i <= candidates.len(),
            entries@ == spec_build_entries(candidates@.take(i as int)),
            keys_distinct(entries@),
            keys_end_in_head(entries@),
        decreases candidates.len() - i,
    {
        let candidate = &candidates[i];
        entries.collect_repo(candidate.repo_path.as_str(), &candidate.dot_git);
        proof {
            use_type_invariant(&entries);
        }
        assert(candidates@.take(i + 1).drop_last() =~= candidates@.take(i as int));
        i = i + 1;
    }
    assert(candidates@.take(candidates.len() as int) =~= candidates@);
    proof {
        lemma_build_entries_registers_every_candidate(candidates@);
        if candidates.len() == 1 {
            assert(candidates@.drop_last() =~= Seq::<RepoCandidate>::empty());
        }
    }
    entries
}

/// A change of a watched `HEAD` file: the repository it belongs to, and the
/// `HEAD` path as the event reported it.
#[derive(Debug)]
pub struct HeadChange {
    pub repo_path: String,
    pub head_path: String,
}

/// The view of a list of changes: (repository, `HEAD` path) pairs.
pub open spec fn changes_view(v: Seq<HeadChange>) -> Seq<(Seq<char>, Seq<char>)> {
    v.map_values(|c: HeadChange| (c.repo_path@, c.head_path@))
}

/// The changed `HEAD` files among `paths`, in order: every path named `HEAD`
/// that is registered, with its repository.
pub open spec fn spec_changes_in(paths: Seq<Seq<char>>, m: Seq<(Seq<char>, Seq<char>)>) -> Seq<
    (Seq<char>, Seq<char>),
>
    decreases paths.len(),
{
    if paths.len() == 0 {
        seq![]
    } else {
        let p = paths.last();
        spec_changes_in(paths.drop_last(), m) + if spec_is_head_path(p) && lookup(m, p) is Some {
            seq![(lookup(m, p)->0, p)]
        } else {
            seq![]
        }
    }
}

/// The `HEAD` changes an event reports: none unless it is a `HEAD` event.
pub open spec fn spec_head_changes(
    kind: WatchEventKind,
    paths: Seq<Seq<char>>,
    m: Seq<(Seq<char>, Seq<char>)>,
) -> Seq<(Seq<char>, Seq<char>)> {
    if spec_is_head_event(kind, paths) {
        spec_changes_in(paths, m)
    } else {
        seq![]
    }
}

/// Appending to a sequence keeps what it contained and adds the new item.
proof fn lemma_push_contains<A>(s: Seq<A>, x: A)
    ensures
        s.push(x).contains(x),
        forall|y: A| s.contains(y) ==> #[trigger] s.push(x).contains(y),
{
    assert(s.push(x)[s.len() as int] == x);
    assert forall|y: A| s.contains(y) implies #[trigger] s.push(x).contains(y) by {
        let k = choose|k: int| 0 <= k < s.len() && s[k] == y;
        assert(s.push(x)[k] == y);
    }
}

/// The `HEAD` changes to react to for a file-system event. An event that can
/// change a file and names a registered `HEAD` path (a plain one) reports
/// that path with the repository registered under it.
pub fn head_changes(event: &WatchEvent, entries: &HeadEntries) -> (r: Vec<HeadChange>)
    ensures
        changes_view(r@) == spec_head_changes(
            event.kind,
            event.paths@.map_values(|p: String| p@),
            entries@,
        ),
        may_change_file(event.kind) ==> forall|q: int, j: int|
            #![trigger event.paths@[q], entries@[j]]
            0 <= q < event.paths.len() && 0 <= j < entries@.len() && event.paths@[q]@
                == entries@[j].0 && plain_path(event.paths@[q]@) ==> changes_view(r@).contains(
                (entries@[j].1, event.paths@[q]@),
            ),
{
    proof {
        use_type_invariant(entries);
    }
    let mut r: Vec<HeadChange> = Vec::new();
    if !is_head_event(event) {
        assert(changes_view(r@) =~= seq![]);
        proof {
            assert forall|q: int, j: int|
                #![trigger event.paths@[q], entries@[j]]
                0 <= q < event.paths.len() && 0 <= j < entries@.len() && event.paths@[q]@
                    == entries@[j].0 && plain_path(event.paths@[q]@) implies !may_change_file(
                event.kind,
            ) by {
                assert(after_last_slash(entries@[j].0) == HEAD_FILE_NAME@);
                assert(ends_in_head(event.paths@[q]@));
            }
        }
        return r;
    }
    let ghost paths = event.paths@.map_values(|p: String| p@);
    let mut i: usize = 0;
    assert(changes_view(r@) =~= seq![]);
    assert(paths.take(0) =~= Seq::<Seq<char>>::empty());
    while i < event.paths.len()
        invariant
            i <= event.paths.len(),
            paths == event.paths@.map_values(|p: String| p@),
            changes_view(r@) == spec_changes_in(paths.take(i as int), entries@),
            keys_end_in_head(entries@),
            forall|q: int, j: int|
                #![trigger event.paths@[q], entries@[j]]
                0 <= q < i && 0 <= j < entries@.len() && event.paths@[q]@ == entries@[j].0
                    && plain_path(event.paths@[q]@) ==> changes_view(r@).contains(
                    (entries@[j].1, event.paths@[q]@),
                ),
        decreases event.paths.len() - i,
    {
        let path = &event.paths[i];
        let ghost before = changes_view(r@);
        assert(paths.take(i + 1).drop_last() =~= paths.take(i as int));
        assert(paths.take(i + 1).last() == path@);
        if is_head_path(path.as_str()) {
            match entries.get(path.as_str()) {
                Some(repo) => {
                    let ghost item = (repo@, path@);
                    r.push(HeadChange { repo_path: repo, head_path: path.clone() });
                    assert(changes_view(r@) =~= before.push((lookup(entries@, path@)->0, path@)));
                    proof {
                        lemma_push_contains(before, item);
                    }
                },
                None => {},
            }
        }
        proof {
            assert forall|q: int, j: int|
                #![trigger event.paths@[q], entries@[j]]
                0 <= q < i + 1 && 0 <= j < entries@.len() && event.paths@[q]@ == entries@[j].0
                    && plain_path(event.paths@[q]@) implies changes_view(r@).contains(
                (entries@[j].1, event.paths@[q]@),
            ) by {
                if q == i {
                    assert(after_last_slash(entries@[j].0) == HEAD_FILE_NAME@);
                }
            }
        }
        assert(changes_view(r@) =~= spec_changes_in(paths.take(i + 1), entries@));
        i = i + 1;
    }
    assert(paths.take(event.paths.len() as int) =~= paths);
    r
}

/// A notification to show: its title and its text.
#[derive(Debug)]
pub struct Notice {
    pub title: String,
    pub body: String,
}

/// What is announced for a branch, given the latest note parked on it
/// (`found`): that note under the branch's name, unless it is done.
pub open spec fn spec_notice(branch: Seq<char>, found: Option<Note>) -> Option<(Seq<char>, Seq<char>)> {
    match found {
        Some(note) => if note.done {
            None
        } else {
            Some((branch, note.note_text@))
        },
        None => None,
    }
}

/// The view of an optional notice: its title and text.
pub open spec fn notice_view(n: Option<Notice>) -> Option<(Seq<char>, Seq<char>)> {
    match n {
        Some(x) => Some((x.title@, x.body@)),
        None => None,
    }
}

/// The notice for `branch` when the latest note parked on it is `found`:
/// only a not-yet-done note is announced, titled with the branch and
/// showing the note's text.
pub fn notice_for(branch: String, found: Option<Note>) -> (r: Option<Notice>)
    ensures
        notice_view(r) == spec_notice(branch@, found),
{
    match found {
        Some(note) => if note.done {
            None
        } else {
            Some(Notice { title: branch, body: note.note_text })
        },
        None => None,
    }
}

/// What to announce when the `HEAD` file of the repository at `repo_path`
/// changed and now reads `head_content` (`None` when it could not be read):
/// nothing for a detached or unreadable `HEAD`; otherwise what `notice_for`
/// gives for the branch and the latest note parked on it. The note store
/// finds no parked note yet (`latest_for_branch`), so nothing is announced.
pub fn head_change_notice(
    conn: &rusqlite::Connection,
    repo_path: &str,
    head_content: Option<String>,
) -> (r: Option<Notice>)
    ensures
        r is None,
{
    let branch = match branch_from_head(head_content) {
        Some(b) => b,
        None => return None,
    };
    match latest_for_branch(conn, repo_path, branch.as_str()) {
        Ok(found) => notice_for(branch, found),
        Err(_) => None,
    }
}

/// The directories holding the `HEAD` files `heads`, in order (`Path::parent`).
pub open spec fn spec_dirs_of(heads: Seq<Seq<char>>) -> Seq<Seq<char>>
    decreases heads.len(),
{
    if heads.len() == 0 {
        seq![]
    } else {
        spec_dirs_of(heads.drop_last()) + match std_parent(heads.last()) {
            Some(d) => seq![d],
            None => seq![],
        }
    }
}

/// Where `x` goes into the sorted `v`: before the first path it orders before,
/// after every path it does not.
pub open spec fn insert_pos(v: Seq<Seq<char>>, x: Seq<char>) -> nat
    decreases v.len(),
{
    if v.len() == 0 || std_path_lt(x, v[0]) {
        0
    } else {
        1 + insert_pos(v.drop_first(), x)
    }
}

/// `v` sorted by `Path`'s order, equal paths keeping their order (a stable
/// sort, as `slice::sort` is).
pub open spec fn spec_sort_paths(v: Seq<Seq<char>>) -> Seq<Seq<char>>
    decreases v.len(),
{
    if v.len() == 0 {
        v
    } else {
        let s = spec_sort_paths(v.drop_last());
        s.insert(insert_pos(s, v.last()) as int, v.last())
    }
}

/// No path of `v` orders before the one preceding it.
pub open spec fn paths_sorted(v: Seq<Seq<char>>) -> bool {
    forall|i: int| 0 <= i < v.len() - 1 ==> !std_path_lt(#[trigger] v[i + 1], v[i])
}

/// `v` without the paths equal to the path kept before them (`Vec::dedup`).
pub open spec fn spec_dedup_paths(v: Seq<Seq<char>>) -> Seq<Seq<char>>
    decreases v.len(),
{
    if v.len() == 0 {
        v
    } else {
        let d = spec_dedup_paths(v.drop_last());
        if d.len() > 0 && std_path_eq(v.last(), d.last()) {
            d
        } else {
            d.push(v.last())
        }
    }
}

/// No path of `v` equals the one before it.
pub open spec fn no_adjacent_duplicates(v: Seq<Seq<char>>) -> bool {
    forall|i: int| 0 <= i < v.len() - 1 ==> !std_path_eq(#[trigger] v[i + 1], v[i])
}

/// Some path of `v` equals `x` (`slice::contains`).
pub open spec fn contains_path(v: Seq<Seq<char>>, x: Seq<char>) -> bool {
    exists|i: int| 0 <= i < v.len() && std_path_eq(#[trigger] v[i], x)
}

/// Some path of `v` equals `x`, compared either way round.
pub open spec fn contains_equal_path(v: Seq<Seq<char>>, x: Seq<char>) -> bool {
    exists|i: int| 0 <= i < v.len() && std_path_eq(#[trigger] v[i], x) && std_path_eq(x, v[i])
}

/// The paths of `v` that `other` does not contain, in order.
pub open spec fn paths_not_in(v: Seq<Seq<char>>, other: Seq<Seq<char>>) -> Seq<Seq<char>>
    decreases v.len(),
{
    if v.len() == 0 {
        v
    } else {
        paths_not_in(v.drop_last(), other) + if contains_path(other, v.last()) {
            seq![]
        } else {
            seq![v.last()]
        }
    }
}

/// Every path of `v` is either contained in `other` or kept by
/// `paths_not_in(v, other)`, and every kept path is a path of `v` that
/// `other` does not contain.
pub proof fn lemma_paths_not_in_splits(v: Seq<Seq<char>>, other: Seq<Seq<char>>)
    ensures
        forall|i: int|
            0 <= i < v.len() ==> contains_path(other, #[trigger] v[i]) || paths_not_in(
                v,
                other,
            ).contains(v[i]),
        forall|j: int|
            0 <= j < paths_not_in(v, other).len() ==> v.contains(#[trigger] paths_not_in(v, other)[j])
                && !contains_path(other, paths_not_in(v, other)[j]),
    decreases v.len(),
{
    if v.len() > 0 {
        let init = v.drop_last();
        lemma_paths_not_in_splits(init, other);
        let r = paths_not_in(v, other);
        let ri = paths_not_in(init, other);
        assert forall|i: int| 0 <= i < v.len() implies contains_path(other, #[trigger] v[i])
            || r.contains(v[i]) by {
            if i < v.len() - 1 {
                assert(v[i] == init[i]);
                if ri.contains(v[i]) {
                    let k = choose|k: int| 0 <= k < ri.len() && ri[k] == v[i];
                    assert(r[k] == ri[k]);
                }
            } else if !contains_path(other, v[i]) {
                assert(r[r.len() - 1] == v[i]);
            }
        }
        assert forall|j: int| 0 <= j < r.len() implies v.contains(#[trigger] r[j]) && !contains_path(
            other,
            r[j],
        ) by {
            if j < ri.len() {
                assert(r[j] == ri[j]);
                let k = choose|k: int| 0 <= k < init.len() && init[k] == ri[j];
                assert(v[k] == init[k]);
            } else {
                assert(r[j] == v.last());
                assert(v[v.len() - 1] == v.last());
            }
        }
    }
}

proof fn lemma_insert_pos(v: Seq<Seq<char>>, x: Seq<char>, i: int)
    requires
        0 <= i <= v.len(),
        forall|k: int| 0 <= k < i ==> !std_path_lt(x, #[trigger] v[k]),
        i < v.len() ==> std_path_lt(x, v[i]),
    ensures
        insert_pos(v, x) == i,
    decreases i,
{
    if i > 0 {
        let t = v.drop_first();
        assert(!std_path_lt(x, v[0]));
        assert forall|k: int| 0 <= k < i - 1 implies !std_path_lt(x, #[trigger] t[k]) by {
            assert(t[k] == v[k + 1]);
        }
        lemma_insert_pos(t, x, i - 1);
    }
}

/// Inserts `x` into the sorted `v` after every path it does not order before.
fn insert_sorted(v: &mut Vec<String>, x: String)
    requires
        paths_sorted(texts_view(old(v)@)),
    ensures
        texts_view(final(v)@) == texts_view(old(v)@).insert(
            insert_pos(texts_view(old(v)@), x@) as int,
            x@,
        ),
        paths_sorted(texts_view(final(v)@)),
{
    let ghost t = texts_view(v@);
    let n = v.len();
    let mut i: usize = 0;
    let mut stop = false;
    while !stop && i < n
        invariant
            n == v.len(),
            t == texts_view(v@),
            paths_sorted(t),
            i <= n,
            forall|k: int| 0 <= k < i ==> !std_path_lt(x@, #[trigger] t[k]),
            stop ==> i < n && std_path_lt(x@, t[i as int]) && !std_path_lt(t[i as int], x@),
        decreases n - i + (if stop {
            0int
        } else {
            1int
        }),
    {
        assert(t[i as int] == v@[i as int]@);
        if path_lt(x.as_str(), v[i].as_str()) {
            stop = true;
        } else {
            i = i + 1;
        }
    }
    proof {
        lemma_insert_pos(t, x@, i as int);
    }
    let ghost xv = x@;
    v.insert(i, x);
    let ghost u = texts_view(v@);
    assert(u =~= t.insert(i as int, xv));
    assert forall|k: int| 0 <= k < u.len() - 1 implies !std_path_lt(#[trigger] u[k + 1], u[k]) by {
        if k + 1 < i {
            assert(u[k + 1] == t[k + 1] && u[k] == t[k]);
            assert(!std_path_lt(t[k + 1], t[k]));
        } else if k + 1 == i {
            assert(u[k + 1] == xv && u[k] == t[k]);
        } else if k == i {
            assert(u[k] == xv && u[k + 1] == t[k]);
        } else {
            assert(u[k + 1] == t[k] && u[k] == t[k - 1]);
            let j = k - 1;
            assert(!std_path_lt(t[j + 1], t[j]));
        }
    }
}

/// The paths of `v` sorted by `Path`'s order (stable).
pub fn sort_paths(v: &Vec<String>) -> (r: Vec<String>)
    ensures
        texts_view(r@) == spec_sort_paths(texts_view(v@)),
        paths_sorted(texts_view(r@)),
{
    let ghost t = texts_view(v@);
    let mut r: Vec<String> = Vec::new();
    let mut i: usize = 0;
    assert(t.take(0) =~= Seq::<Seq<char>>::empty());
    assert(texts_view(r@) =~= Seq::<Seq<char>>::empty());
    while i < v.len()
        invariant
            i <= v.len(),
            t == texts_view(v@),
            texts_view(r@) == spec_sort_paths(t.take(i as int)),
            paths_sorted(texts_view(r@)),
        decreases v.len() - i,
    {
        let x = v[i].clone();
        assert(x@ == t[i as int]);
        assert(t.take(i + 1).drop_last() =~= t.take(i as int));
        assert(t.take(i + 1).last() == t[i as int]);
        insert_sorted(&mut r, x);
        i = i + 1;
    }
    assert(t.take(v.len() as int) =~= t);
    r
}

/// `v` without the paths equal to the path kept before them.
pub fn dedup_paths(v: &Vec<String>) -> (r: Vec<String>)
    ensures
        texts_view(r@) == spec_dedup_paths(texts_view(v@)),
        no_adjacent_duplicates(texts_view(r@)),
{
    let ghost t = texts_view(v@);
    let mut r: Vec<String> = Vec::new();
    let mut i: usize = 0;
    assert(t.take(0) =~= Seq::<Seq<char>>::empty());
    assert(texts_view(r@) =~= Seq::<Seq<char>>::empty());
    while i < v.len()
        invariant
            i <= v.len(),
            t == texts_view(v@),
            texts_view(r@) == spec_dedup_paths(t.take(i as int)),
            no_adjacent_duplicates(texts_view(r@)),
        decreases v.len() - i,
    {
        let ghost before = texts_view(r@);
        assert(t.take(i + 1).drop_last() =~= t.take(i as int));
        assert(t.take(i + 1).last() == t[i as int]);
        assert(v@[i as int]@ == t[i as int]);
        let keep = if r.len() == 0 {
            true
        } else {
            assert(r@[r.len() - 1]@ == before.last());
            !path_eq(v[i].as_str(), r[r.len() - 1].as_str())
        };
        if keep {
            r.push(v[i].clone());
            assert(texts_view(r@) =~= before.push(t[i as int]));
        }
        i = i + 1;
    }
    assert(t.take(v.len() as int) =~= t);
    r
}

/// Some path of `v` equals `x`.
pub fn contains_path_in(v: &Vec<String>, x: &str) -> (b: bool)
    ensures
        b == contains_path(texts_view(v@), x@),
        b ==> contains_equal_path(texts_view(v@), x@),
{
    let ghost t = texts_view(v@);
    let mut i: usize = 0;
    while i < v.len()
        invariant
            i <= v.len(),
            t == texts_view(v@),
            forall|k: int| 0 <= k < i ==> !std_path_eq(#[trigger] t[k], x@),
        decreases v.len() - i,
    {
        assert(t[i as int] == v@[i as int]@);
        if path_eq(v[i].as_str(), x) {
            assert(std_path_eq(t[i as int], x@) && std_path_eq(x@, t[i as int]));
            return true;
        }
        i = i + 1;
    }
    false
}

/// The paths of `v` that `other` does not contain, in order. Each path of
/// `v` left out is equal to a path of `other` compared either way round.
pub fn paths_not_in_exec(v: &Vec<String>, other: &Vec<String>) -> (r: Vec<String>)
    ensures
        texts_view(r@) == paths_not_in(texts_view(v@), texts_view(other@)),
        forall|i: int|
            0 <= i < v.len() && contains_path(texts_view(other@), #[trigger] texts_view(v@)[i])
                ==> contains_equal_path(texts_view(other@), texts_view(v@)[i]),
{
    let ghost t = texts_view(v@);
    let ghost o = texts_view(other@);
    let mut r: Vec<String> = Vec::new();
    let mut i: usize = 0;
    assert(t.take(0) =~= Seq::<Seq<char>>::empty());
    assert(texts_view(r@) =~= Seq::<Seq<char>>::empty());
    while i < v.len()
        invariant
            i <= v.len(),
            t == texts_view(v@),
            o == texts_view(other@),
            texts_view(r@) == paths_not_in(t.take(i as int), o),
            forall|q: int|
                0 <= q < i && contains_path(o, #[trigger] t[q]) ==> contains_equal_path(o, t[q]),
        decreases v.len() - i,
    {
        let ghost before = texts_view(r@);
        assert(t.take(i + 1).drop_last() =~= t.take(i as int));
        assert(t.take(i + 1).last() == t[i as int]);
        assert(v@[i as int]@ == t[i as int]);
        if !contains_path_in(other, v[i].as_str()) {
            r.push(v[i].clone());
            assert(texts_view(r@) =~= before.push(t[i as int]));
        } else {
            assert(texts_view(r@) =~= before);
        }
        i = i + 1;
    }
    assert(t.take(v.len() as int) =~= t);
    r
}

/// The directories of the `HEAD` files `heads`, in order.
pub fn dirs_of(heads: &Vec<String>) -> (r: Vec<String>)
    ensures
        texts_view(r@) == spec_dirs_of(texts_view(heads@)),
{
    let ghost t = texts_view(heads@);
    let mut r: Vec<String> = Vec::new();
    let mut i: usize = 0;
    assert(t.take(0) =~= Seq::<Seq<char>>::empty());
    assert(texts_view(r@) =~= Seq::<Seq<char>>::empty());
    while i < heads.len()
        invariant
            i <= heads.len(),
            t == texts_view(heads@),
            texts_view(r@) == spec_dirs_of(t.take(i as int)),
        decreases heads.len() - i,
    {
        let ghost before = texts_view(r@);
        assert(t.take(i + 1).drop_last() =~= t.take(i as int));
        assert(t.take(i + 1).last() == t[i as int]);
        assert(heads@[i as int]@ == t[i as int]);
        match parent(heads[i].as_str()) {
            Some(d) => {
                r.push(d);
                assert(texts_view(r@) =~= before + seq![std_parent(t[i as int])->0]);
            },
            None => {
                assert(texts_view(r@) =~= before);
            },
        }
        i = i + 1;
    }
    assert(t.take(heads.len() as int) =~= t);
    r
}

/// What a rebuild of the watch list does: stop watching `unwatch`, start
/// watching `watch`, and from then on hold `dirs` as the watched directories.
#[derive(Debug)]
pub struct ResyncPlan {
    pub unwatch: Vec<String>,
    pub watch: Vec<String>,
    pub dirs: Vec<String>,
}

/// The watched directories for the table `m`: the directories of its `HEAD`
/// files, sorted, without repetitions.
pub open spec fn spec_watch_dirs(m: Seq<(Seq<char>, Seq<char>)>) -> Seq<Seq<char>> {
    spec_dedup_paths(spec_sort_paths(spec_dirs_of(m.map_values(|e: (Seq<char>, Seq<char>)| e.0))))
}

/// After stopping to watch `unwatch` and starting to watch `watch`, the
/// directory `x` is watched: it is among `watch`, or a directory equal to it
/// was watched and is kept, being equal to one of the new directories `dirs`.
pub open spec fn watched_after(
    watched: Seq<Seq<char>>,
    dirs: Seq<Seq<char>>,
    watch: Seq<Seq<char>>,
    x: Seq<char>,
) -> bool {
    ||| watch.contains(x)
    ||| exists|k: int|
        0 <= k < watched.len() && std_path_eq(#[trigger] watched[k], x) && std_path_eq(
            x,
            watched[k],
        ) && contains_path(dirs, watched[k])
}

/// Rebuilds the set of watched `.git` directories from the new table
/// `entries`, given the directories `watched` now: the directories no longer
/// needed are unwatched, the new ones watched, those in both left alone.
/// Afterwards exactly the new directories are watched: each of them is
/// watched (newly, or as a kept equal one); each newly watched one is one of
/// them; each directory watched before is kept as equal to one of them, or
/// unwatched; and each unwatched one was watched and equals none of them.
pub fn plan_resync(watched: &Vec<String>, entries: &HeadEntries) -> (plan: ResyncPlan)
    ensures
        texts_view(plan.dirs@) == spec_watch_dirs(entries@),
        no_adjacent_duplicates(texts_view(plan.dirs@)),
        texts_view(plan.unwatch@) == paths_not_in(texts_view(watched@), texts_view(plan.dirs@)),
        texts_view(plan.watch@) == paths_not_in(texts_view(plan.dirs@), texts_view(watched@)),
        forall|i: int|
            0 <= i < plan.dirs.len() ==> watched_after(
                texts_view(watched@),
                texts_view(plan.dirs@),
                texts_view(plan.watch@),
                #[trigger] texts_view(plan.dirs@)[i],
            ),
        forall|j: int|
            0 <= j < plan.watch.len() ==> texts_view(plan.dirs@).contains(
                #[trigger] texts_view(plan.watch@)[j],
            ),
        forall|k: int|
            0 <= k < watched.len() ==> contains_path(
                texts_view(plan.dirs@),
                #[trigger] texts_view(watched@)[k],
            ) || texts_view(plan.unwatch@).contains(texts_view(watched@)[k]),
        forall|j: int|
            0 <= j < plan.unwatch.len() ==> texts_view(watched@).contains(
                #[trigger] texts_view(plan.unwatch@)[j],
            ) && !contains_path(texts_view(plan.dirs@), texts_view(plan.unwatch@)[j]),
{
    let heads = entries.heads();
    let parents = dirs_of(&heads);
    let sorted = sort_paths(&parents);
    let dirs = dedup_paths(&sorted);
    let unwatch = paths_not_in_exec(watched, &dirs);
    let watch = paths_not_in_exec(&dirs, watched);
    proof {
        let w = texts_view(watched@);
        let d = texts_view(dirs@);
        lemma_paths_not_in_splits(w, d);
        lemma_paths_not_in_splits(d, w);
        assert forall|i: int| 0 <= i < d.len() implies watched_after(
            w,
            d,
            texts_view(watch@),
            #[trigger] d[i],
        ) by {
            if contains_path(w, d[i]) {
                let k = choose|k: int|
                    0 <= k < w.len() && std_path_eq(#[trigger] w[k], d[i]) && std_path_eq(d[i], w[k]);
                assert(contains_path(d, w[k]));
            }
        }
    }
    ResyncPlan { unwatch, watch, dirs }
}

/// A `HEAD` file written as `ref: refs/heads/<branch>` and a line feed reads
/// back as that branch, for every branch name that does not end in white space.
pub proof fn lemma_branch_from_head_reads_back(branch: Seq<char>)
    requires
        branch.len() == 0 || !is_white_space(branch.last()),
    ensures
        spec_branch_from_head(HEAD_REF_PREFIX@ + branch + seq!['\n']) == Some(branch),
{
    reveal_strlit("ref: refs/heads/");
    let p = HEAD_REF_PREFIX@;
    let c = p + branch + seq!['\n'];
    assert(c[0] == 'r');
    assert(trim_start(c) == c);
    assert(c.drop_last() =~= p + branch);
    assert(is_white_space(c.last()));
    assert(trim_end(c) == trim_end(p + branch));
    let pb = p + branch;
    if branch.len() == 0 {
        assert(pb.last() == '/');
    } else {
        assert(pb.last() == branch.last());
    }
    assert(trim_end(pb) == pb);
    assert(pb.take(p.len() as int) =~= p);
    assert(pb.skip(p.len() as int) =~= branch);
}

/// Registering a repository never changes what was registered before: the
/// table only grows, by at most the new repository at its end.
pub proof fn lemma_collect_repo_keeps_earlier(
    m: Seq<(Seq<char>, Seq<char>)>,
    repo_path: Seq<char>,
    dot_git: DotGit,
)
    ensures
        m.len() <= spec_collect_repo(m, repo_path, dot_git).len() <= m.len() + 1,
        spec_collect_repo(m, repo_path, dot_git).take(m.len() as int) == m,
{
    let r = spec_collect_repo(m, repo_path, dot_git);
    assert(r.take(m.len() as int) =~= m);
}

proof fn lemma_lookup_some(m: Seq<(Seq<char>, Seq<char>)>, path: Seq<char>)
    requires
        lookup(m, path) is Some,
    ensures
        exists|k: int| 0 <= k < m.len() && std_path_eq(path, #[trigger] m[k].0),
    decreases m.len(),
{
    if !std_path_eq(path, m[0].0) {
        let t = m.drop_first();
        lemma_lookup_some(t, path);
        let k = choose|k: int| 0 <= k < t.len() && std_path_eq(path, #[trigger] t[k].0);
        assert(m[k + 1] == t[k]);
    }
}

/// Building the table registers every candidate whose `HEAD` path can be
/// located (as it is, or as an equal path registered before it), holds
/// nothing but the `HEAD` paths of candidates under their own repository
/// paths, and has at most one entry per candidate.
pub proof fn lemma_build_entries_registers_every_candidate(candidates: Seq<RepoCandidate>)
    ensures
        forall|i: int|
            0 <= i < candidates.len() && #[trigger] candidate_head(candidates[i]) is Some
                ==> is_registered(
                spec_build_entries(candidates),
                candidate_head(candidates[i])->0,
            ),
        forall|k: int|
            0 <= k < spec_build_entries(candidates).len() ==> exists|i: int|
                0 <= i < candidates.len() && #[trigger] candidate_head(candidates[i]) == Some(
                    (#[trigger] spec_build_entries(candidates)[k]).0,
                ) && spec_build_entries(candidates)[k].1 == candidates[i].repo_path@,
        spec_build_entries(candidates).len() <= candidates.len(),
    decreases candidates.len(),
{
    if candidates.len() > 0 {
        let init = candidates.drop_last();
        let c = candidates.last();
        lemma_build_entries_registers_every_candidate(init);
        let m = spec_build_entries(init);
        let b = spec_build_entries(candidates);
        lemma_collect_repo_keeps_earlier(m, c.repo_path@, c.dot_git);
        assert(b == spec_collect_repo(m, c.repo_path@, c.dot_git));
        assert forall|k: int| 0 <= k < m.len() implies #[trigger] b[k] == m[k] by {
            assert(b.take(m.len() as int)[k] == b[k]);
        }
        assert forall|i: int|
            0 <= i < candidates.len() && #[trigger] candidate_head(candidates[i]) is Some
                implies is_registered(b, candidate_head(candidates[i])->0) by {
            let h = candidate_head(candidates[i])->0;
            if i < candidates.len() - 1 {
                assert(candidates[i] == init[i]);
                assert(candidate_head(init[i]) is Some);
                let k = choose|k: int| 0 <= k < m.len() && (#[trigger] m[k].0 == h || std_path_eq(h, m[k].0));
                assert(b[k] == m[k]);
            } else {
                assert(candidates[i] == c);
                if lookup(m, h) is Some {
                    lemma_lookup_some(m, h);
                    let k = choose|k: int| 0 <= k < m.len() && std_path_eq(h, #[trigger] m[k].0);
                    assert(b[k] == m[k]);
                } else {
                    assert(b == m.push((h, c.repo_path@)));
                    assert(b[m.len() as int].0 == h);
                }
            }
        }
        assert forall|k: int| 0 <= k < b.len() implies exists|i: int|
            0 <= i < candidates.len() && #[trigger] candidate_head(candidates[i]) == Some(
                (#[trigger] b[k]).0,
            ) && b[k].1 == candidates[i].repo_path@ by {
            if k < m.len() {
                assert(b[k] == m[k]);
                let i = choose|i: int|
                    0 <= i < init.len() && #[trigger] candidate_head(init[i]) == Some(m[k].0)
                        && m[k].1 == init[i].repo_path@;
                assert(candidates[i] == init[i]);
            } else {
                let h = candidate_head(c)->0;
                assert(b == m.push((h, c.repo_path@)));
                assert(candidates[candidates.len() - 1] == c);
            }
        }
    }
}

/// A `.git` file written as `gitdir: <dir>` and a line feed points at `dir`,
/// for every directory name that has no line feed and neither begins nor
/// ends with white space.
pub proof fn lemma_gitdir_file_reads_back(dir: Seq<char>)
    requires
        dir.len() > 0,
        !is_white_space(dir[0]),
        !is_white_space(dir.last()),
        forall|k: int| 0 <= k < dir.len() ==> dir[k] != '\n',
    ensures
        spec_gitdir_from_file(GITDIR_KEY@ + seq![' '] + dir + seq!['\n']) == Some(dir),
{
    reveal_strlit("gitdir:");
    let key = GITDIR_KEY@;
    let line = key + seq![' '] + dir;
    let c = line + seq!['\n'];
    assert forall|k: int| 0 <= k < c.len() - 1 implies c[k] != '\n' by {
        if k >= key.len() + 1 {
            assert(c[k] == dir[k - key.len() - 1]);
        }
    }
    lemma_line_end(c, c.len() - 1);
    assert(c.take(c.len() - 1) =~= line);
    assert(line.last() == dir.last());
    assert(strip_cr(line) == line);
    assert(c.skip(c.len() as int) =~= Seq::<char>::empty());
    assert(lines(c.skip(c.len() as int)) =~= Seq::<Seq<char>>::empty());
    assert(lines(c) =~= seq![line]);
    assert(line[0] == 'g');
    assert(trim_start(line) == line);
    assert(line.take(key.len() as int) =~= key);
    assert(is_gitdir_line(line));
    assert(lines(c)[0] == line);
    assert(first_gitdir_line(lines(c)) == Some(line));
    let rest = seq![' '] + dir;
    assert(line.skip(key.len() as int) =~= rest);
    assert(!starts_with(rest, key)) by {
        if starts_with(rest, key) {
            assert(rest.take(key.len() as int)[0] == key[0]);
        }
    }
    assert(key.len() == 7);
    assert(starts_with(line, key));
    assert(trim_start_matches(rest, key) == rest);
    assert(trim_start_matches(line, key) == trim_start_matches(line.skip(key.len() as int), key));
    assert(trim_start_matches(line, key) == rest);
    assert(rest.drop_first() =~= dir);
    assert(trim_start(rest) == trim_start(dir));
    assert(trim_start(dir) == dir);
    assert(trim_end(dir) == dir);
}

/// The `HEAD` path of a repository ends in the component `HEAD`, so that
/// `Path::file_name` gives `HEAD` for it wherever it is a plain path; and
/// where the git directory is a plain path written without a trailing
/// separator or `.` component, `Path::parent` gives back that git directory.
pub proof fn lemma_head_path_in_git_dir(repo_path: Seq<char>, dot_git: DotGit)
    ensures
        spec_head_path(repo_path, dot_git) matches Some(h) ==> after_last_slash(h)
            == HEAD_FILE_NAME@ && (plain_path(h) ==> simple_file_name(h) == Some(HEAD_FILE_NAME@)),
        spec_git_dir(repo_path, dot_git) matches Some(d) ==> (plain_path(d) && is_simple_dir(d)
            ==> simple_parent(spec_join(d, HEAD_FILE_NAME@)) == Some(d)),
{
    reveal_strlit("HEAD");
    let n = HEAD_FILE_NAME@;
    assert(is_normal_component(n)) by {
        assert(n.len() == 4);
        assert(n != seq!['.']);
        assert(n != seq!['.', '.']);
    }
    if let Some(d) = spec_git_dir(repo_path, dot_git) {
        let h = spec_join(d, n);
        lemma_join_last_component(d, n);
        if plain_path(d) && is_simple_dir(d) {
            assert(h =~= d + seq!['/'] + n);
            assert(plain_path(h)) by {
                assert forall|i: int| 0 <= i < h.len() implies h[i] != '\\' && h[i] != ':' by {
                    if i < d.len() {
                        assert(h[i] == d[i]);
                    }
                }
                if d.len() >= 2 {
                    assert(h[0] == d[0] && h[1] == d[1]);
                }
            }
            assert(h.len() - n.len() - 1 == d.len());
        }
    }
}

} // verus!
