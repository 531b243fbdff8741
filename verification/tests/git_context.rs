use std::time::{SystemTime, UNIX_EPOCH};

use parkplatz::git_context::{
    capture_context, context_from_parts, context_from_repo, empty_context, repo_location,
    trim_trailing_slash, RepoLookup,
};

fn temp_repo_dir(name: &str) -> String {
    let nanos = SystemTime::now().duration_since(UNIX_EPOCH).unwrap().as_nanos();
    format!("/tmp/parkplatz_test_{}_{}", name, nanos)
}

/// Initialises a repository and creates one commit so that `head()` points
/// at a real branch with a real commit hash.
fn init_repo_with_commit(dir: &str) -> git2::Repository {
    let repo = git2::Repository::init(dir).expect("init repo");
    {
        let sig = git2::Signature::now("test", "test@example.com").expect("signature");
        let mut index = repo.index().expect("index");
        let tree_id = index.write_tree().expect("write tree");
        let tree = repo.find_tree(tree_id).expect("find tree");
        repo.commit(Some("HEAD"), &sig, &sig, "init", &tree, &[])
            .expect("commit");
    }
    repo
}

#[test]
fn empty_context_when_no_repository() {
    let ctx = context_from_repo(None);
    assert!(ctx.repo_path.is_empty());
    assert!(ctx.branch.is_empty());
    assert!(ctx.commit_hash.is_empty());
    assert!(ctx.changed_files.is_empty());
}

#[test]
fn active_repo_fields_are_filled() {
    let tmp = temp_repo_dir("capture_fields");
    init_repo_with_commit(&tmp);

    let ctx = capture_context(Some(tmp.clone()), "/nonexistent");
    assert_eq!(ctx.repo_path, tmp);
    assert!(!ctx.branch.is_empty());
    assert!(!ctx.commit_hash.is_empty());
    assert!(ctx.changed_files.is_empty());
}

#[test]
fn missing_active_repo_falls_back_to_discovery() {
    let tmp = temp_repo_dir("discovery");
    init_repo_with_commit(&tmp);
    let ctx = capture_context(None, &format!("{}/.git", tmp));
    assert!(!ctx.branch.is_empty());
    assert_eq!(ctx.repo_path, tmp);
    assert_eq!(ctx.commit_hash.len(), 40);
}

#[test]
fn repository_location_prefers_the_active_repository() {
    assert_eq!(
        repo_location(Some("/active".to_string()), "/start"),
        ("/active".to_string(), RepoLookup::Open)
    );
    assert_eq!(repo_location(None, "/start"), ("/start".to_string(), RepoLookup::Discover));
}

#[test]
fn unopenable_active_repo_gives_empty_context() {
    let ctx = capture_context(Some("/nonexistent/parkplatz/repo".to_string()), ".");
    assert!(ctx.repo_path.is_empty());
    assert!(ctx.branch.is_empty());
    assert!(ctx.commit_hash.is_empty());
    assert!(ctx.changed_files.is_empty());
}

#[test]
fn context_assembly_fills_gaps_with_empty_values() {
    let ctx = context_from_parts(
        Some("/r/".to_string()),
        None,
        Some("0123abcd".to_string()),
        Some(vec![
            (Some("a.txt".to_string()), 0x100),
            (None, 0x80),
            (Some("target/".to_string()), 0x4000),
            (Some("clean.rs".to_string()), 0),
            (Some("b/c.rs".to_string()), 0x80),
        ]),
    );
    assert_eq!(ctx.repo_path, "/r");
    assert_eq!(ctx.branch, "");
    assert_eq!(ctx.commit_hash, "0123abcd");
    assert_eq!(ctx.changed_files, vec!["a.txt".to_string(), "b/c.rs".to_string()]);
    assert_eq!(trim_trailing_slash("/".to_string()), "/");
    assert_eq!(trim_trailing_slash("/a//".to_string()), "/a");
    let empty = empty_context();
    assert!(empty.changed_files.is_empty() && empty.repo_path.is_empty());
}
