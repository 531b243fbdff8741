use parkplatz::watcher::{
    branch_from_head, build_entries, dedup_paths, dot_git_path, git_dir, gitdir_from_file,
    head_changes, head_path, is_head_event, is_head_path, plan_resync, sort_paths, DotGit,
    notice_for, resolve_gitdir, watched_repositories, HeadEntries, RepoCandidate, WatchEvent, WatchEventKind,
};
use parkplatz::models::Note;

fn texts(v: &[&str]) -> Vec<String> {
    v.iter().map(|s| s.to_string()).collect()
}

#[test]
fn resolves_branch_from_head() {
    let head = head_path("/tmp/parkplatz_watcher_test", &DotGit::Directory).unwrap();
    assert_eq!(head, "/tmp/parkplatz_watcher_test/.git/HEAD");
    let content = Some("ref: refs/heads/feature/foo\n".to_string());
    assert_eq!(branch_from_head(content).as_deref(), Some("feature/foo"));
}

#[test]
fn detached_head_has_no_branch() {
    let content = Some("0123456789abcdef0123456789abcdef01234567\n".to_string());
    assert_eq!(branch_from_head(content), None);
}

#[test]
fn missing_head_is_handled() {
    assert_eq!(branch_from_head(None), None);
}

#[test]
fn follows_worktree_gitdir_file() {
    let dot_git = DotGit::File(Some("gitdir: /tmp/somewhere/.git/worktrees/foo\n".to_string()));
    let dir = git_dir("/tmp/parkplatz_watcher_test", &dot_git).unwrap();
    assert!(dir.ends_with(".git/worktrees/foo"));
}

#[test]
fn is_head_path_matches_only_head() {
    assert!(is_head_path("/a/b/HEAD"));
    assert!(is_head_path("HEAD"));
    assert!(!is_head_path("/a/b/HEAD~"));
    assert!(!is_head_path("/a/b/index"));
}

#[test]
fn head_branch_is_trimmed() {
    assert_eq!(branch_from_head(Some("  ref: refs/heads/main \r\n".to_string())).as_deref(), Some("main"));
    assert_eq!(branch_from_head(Some("ref: refs/tags/v1\n".to_string())), None);
    assert_eq!(branch_from_head(Some(String::new())), None);
}

#[test]
fn gitdir_file_parsing() {
    assert_eq!(
        gitdir_from_file("# worktree\r\n  gitdir:gitdir: /x/.git/worktrees/a \r\nother\n").as_deref(),
        Some("/x/.git/worktrees/a")
    );
    assert_eq!(gitdir_from_file("gitdir:   \n"), None);
    assert_eq!(gitdir_from_file("nothing here"), None);
    assert_eq!(gitdir_from_file(""), None);
    assert_eq!(gitdir_from_file("a\ngitdir: rel/dir").as_deref(), Some("rel/dir"));
}

#[test]
fn git_dir_of_missing_or_unreadable_dot_git() {
    assert_eq!(git_dir("/r", &DotGit::Missing), None);
    assert_eq!(git_dir("/r", &DotGit::File(None)), None);
    assert_eq!(git_dir("/r", &DotGit::Directory).as_deref(), Some("/r/.git"));
    assert_eq!(dot_git_path("/r/"), "/r/.git");
}

#[test]
fn head_events_need_a_head_path_and_a_change() {
    let modify = WatchEvent { kind: WatchEventKind::Modify, paths: texts(&["/r/.git/index", "/r/.git/HEAD"]) };
    assert!(is_head_event(&modify));
    let remove = WatchEvent { kind: WatchEventKind::Remove, paths: texts(&["/r/.git/HEAD"]) };
    assert!(!is_head_event(&remove));
    let other = WatchEvent { kind: WatchEventKind::Create, paths: texts(&["/r/.git/HEAD.lock"]) };
    assert!(!is_head_event(&other));
    let any = WatchEvent { kind: WatchEventKind::Any, paths: texts(&["/r/.git/HEAD"]) };
    assert!(is_head_event(&any));
}

#[test]
fn first_registration_of_a_head_wins() {
    let mut entries = HeadEntries::new();
    entries.collect_repo("/work/app", &DotGit::Directory);
    entries.collect_repo("/work/app/", &DotGit::Directory);
    entries.collect_repo("/work/lib", &DotGit::Missing);
    entries.collect_repo("/work/tool", &DotGit::Directory);
    assert_eq!(entries.len(), 2);
    assert_eq!(entries.get("/work/app/.git/HEAD").as_deref(), Some("/work/app"));
    assert_eq!(entries.get("/work/app//.git/HEAD").as_deref(), Some("/work/app"));
    assert_eq!(entries.get("/work/tool/.git/HEAD").as_deref(), Some("/work/tool"));
    assert_eq!(entries.get("/work/lib/.git/HEAD"), None);
}

#[test]
fn build_entries_registers_candidates_in_order() {
    let candidates = vec![
        RepoCandidate { repo_path: "/ws".to_string(), dot_git: DotGit::Directory },
        RepoCandidate {
            repo_path: "/wt".to_string(),
            dot_git: DotGit::File(Some("gitdir: /ws/.git/worktrees/wt\n".to_string())),
        },
        RepoCandidate { repo_path: "/ws".to_string(), dot_git: DotGit::Directory },
    ];
    let entries = build_entries(&candidates);
    assert_eq!(entries.heads(), texts(&["/ws/.git/HEAD", "/ws/.git/worktrees/wt/HEAD"]));
    assert_eq!(entries.get("/ws/.git/worktrees/wt/HEAD").as_deref(), Some("/wt"));
}

#[test]
fn head_changes_name_registered_repositories() {
    let mut entries = HeadEntries::new();
    entries.collect_repo("/a", &DotGit::Directory);
    entries.collect_repo("/b", &DotGit::Directory);
    let event = WatchEvent {
        kind: WatchEventKind::Modify,
        paths: texts(&["/b/.git/HEAD", "/c/.git/HEAD", "/a/.git/index", "/a/.git/HEAD"]),
    };
    let changes = head_changes(&event, &entries);
    assert_eq!(changes.len(), 2);
    assert_eq!(changes[0].repo_path, "/b");
    assert_eq!(changes[0].head_path, "/b/.git/HEAD");
    assert_eq!(changes[1].repo_path, "/a");
    let access = WatchEvent { kind: WatchEventKind::Access, paths: texts(&["/a/.git/HEAD"]) };
    assert!(head_changes(&access, &entries).is_empty());
}

#[test]
fn paths_sort_by_components_and_dedup() {
    let sorted = sort_paths(&texts(&["/b", "/a/z", "/a", "/a/", "/a-b"]));
    assert_eq!(sorted, texts(&["/a", "/a/", "/a/z", "/a-b", "/b"]));
    assert_eq!(dedup_paths(&sorted), texts(&["/a", "/a/z", "/a-b", "/b"]));
}

#[test]
fn resync_watches_new_dirs_and_drops_old_ones() {
    let mut entries = HeadEntries::new();
    entries.collect_repo("/y", &DotGit::Directory);
    entries.collect_repo("/x", &DotGit::Directory);
    entries.collect_repo(
        "/x-wt",
        &DotGit::File(Some("gitdir: /x/.git\n".to_string())),
    );
    let watched = texts(&["/old/.git", "/y/.git"]);
    let plan = plan_resync(&watched, &entries);
    assert_eq!(plan.dirs, texts(&["/x/.git", "/y/.git"]));
    assert_eq!(plan.unwatch, texts(&["/old/.git"]));
    assert_eq!(plan.watch, texts(&["/x/.git"]));
    let again = plan_resync(&plan.dirs, &entries);
    assert!(again.unwatch.is_empty());
    assert!(again.watch.is_empty());
}

#[test]
fn workspace_root_is_watched_before_known_repositories() {
    assert_eq!(
        watched_repositories("/ws".to_string(), texts(&["/a", "/b"])),
        texts(&["/ws", "/a", "/b"])
    );
    assert_eq!(watched_repositories("/ws".to_string(), Vec::new()), texts(&["/ws"]));
}

fn note(done: bool) -> Note {
    Note {
        id: 3,
        repo_path: "/r".to_string(),
        branch: "feature/x".to_string(),
        commit_hash: String::new(),
        changed_files: Vec::new(),
        note_text: "Weiter an der Login-Seite arbeiten".to_string(),
        created_at: 1700000000,
        done,
    }
}

#[test]
fn only_pending_notes_are_announced() {
    let notice = notice_for("feature/x".to_string(), Some(note(false))).unwrap();
    assert_eq!(notice.title, "feature/x");
    assert_eq!(notice.body, "Weiter an der Login-Seite arbeiten");
    assert!(notice_for("feature/x".to_string(), Some(note(true))).is_none());
    assert!(notice_for("feature/x".to_string(), None).is_none());
}

#[test]
fn relative_gitdir_is_resolved_against_the_repository() {
    let dot_git = DotGit::File(Some("gitdir: ../.git/modules/sub\n".to_string()));
    assert_eq!(git_dir("/w/sub", &dot_git).as_deref(), Some("/w/sub/../.git/modules/sub"));
    assert_eq!(head_path("/w/sub", &dot_git).as_deref(), Some("/w/sub/../.git/modules/sub/HEAD"));
    let absolute = DotGit::File(Some("gitdir: /w/.git/modules/sub\n".to_string()));
    assert_eq!(git_dir("/w/sub", &absolute).as_deref(), Some("/w/.git/modules/sub"));
    assert_eq!(resolve_gitdir("/w/sub", "C:/w/.git/worktrees/x".to_string()), "C:/w/.git/worktrees/x");
    assert_eq!(resolve_gitdir("/w/sub", "modules/sub".to_string()), "/w/sub/modules/sub");
    assert_eq!(resolve_gitdir("/w/sub/", "../x".to_string()), "/w/sub/../x");
    assert_eq!(resolve_gitdir("/w/sub", "1:x".to_string()), "/w/sub/1:x");
}

#[test]
fn a_registered_head_change_is_reported_with_its_repository() {
    let mut entries = HeadEntries::new();
    entries.collect_repo("/r", &DotGit::Directory);
    let head = head_path("/r", &DotGit::Directory).unwrap();
    assert!(is_head_path(&head));
    for kind in [WatchEventKind::Modify, WatchEventKind::Create, WatchEventKind::Any] {
        let event = WatchEvent { kind, paths: vec![head.clone()] };
        let changes = head_changes(&event, &entries);
        assert_eq!(changes.len(), 1);
        assert_eq!(changes[0].repo_path, "/r");
        assert_eq!(changes[0].head_path, "/r/.git/HEAD");
    }
    let removed = WatchEvent { kind: WatchEventKind::Remove, paths: vec![head] };
    assert!(head_changes(&removed, &entries).is_empty());
}

#[test]
fn resync_keeps_equal_directories_watched() {
    let mut entries = HeadEntries::new();
    entries.collect_repo("/x", &DotGit::Directory);
    let watched = texts(&["/x/.git/", "/gone/.git"]);
    let plan = plan_resync(&watched, &entries);
    assert_eq!(plan.dirs, texts(&["/x/.git"]));
    assert_eq!(plan.unwatch, texts(&["/gone/.git"]));
    assert!(plan.watch.is_empty());
}
