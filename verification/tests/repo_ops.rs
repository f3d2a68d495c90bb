//! End-to-end scenarios against real repositories, built in a scratch
//! directory purely through the version-control library.

use diffcore::repo::{
    compare_branches, get_branches, get_commit_diff, get_commit_history, get_current_diff,
    get_file_contents, get_file_patch, get_remote_url, open_repo, GitError,
};
use diffcore::types::{FileStatus, GitProvider};
use git2::{Oid, Repository, Signature, Time};

fn unique_dir(tag: &str) -> String {
    let nanos = std::time::SystemTime::now()
        .duration_since(std::time::SystemTime::UNIX_EPOCH)
        .unwrap()
        .as_nanos();
    format!("/tmp/diffcore_test_{}_{}", tag, nanos)
}

fn sig(t: i64) -> Signature<'static> {
    Signature::new("Tester", "tester@example.com", &Time::new(t, 0)).unwrap()
}

fn opened(path: &str) -> Repository {
    match open_repo(path) {
        Ok(r) => r,
        Err(e) => panic!("{}", e.message()),
    }
}

/// Commit a tree holding the parent's entries plus one file, onto the
/// given reference.
fn commit_file(
    repo: &Repository,
    update_ref: &str,
    parent: Option<Oid>,
    path: &str,
    content: &[u8],
    msg: &str,
    t: i64,
) -> Oid {
    let blob = repo.blob(content).unwrap();
    let parent_commit = parent.map(|p| repo.find_commit(p).unwrap());
    let parent_tree = parent_commit.as_ref().map(|c| c.tree().unwrap());
    let mut tb = repo.treebuilder(parent_tree.as_ref()).unwrap();
    tb.insert(path, blob, 0o100644).unwrap();
    let tree = repo.find_tree(tb.write().unwrap()).unwrap();
    let s = sig(t);
    let parents: Vec<&git2::Commit> = parent_commit.iter().collect();
    repo.commit(Some(update_ref), &s, &s, msg, &tree, &parents).unwrap()
}

/// Leave HEAD and the index at `base` while the working directory holds
/// the contents of `advanced`.
fn rewind_to(repo: &Repository, base: Oid, advanced: Oid) {
    let mut cb = git2::build::CheckoutBuilder::new();
    cb.force();
    repo.reset(
        repo.find_commit(advanced).unwrap().as_object(),
        git2::ResetType::Hard,
        Some(&mut cb),
    )
    .unwrap();
    repo.set_head_detached(base).unwrap();
    let base_tree = repo.find_commit(base).unwrap().tree().unwrap();
    let mut idx = repo.index().unwrap();
    idx.read_tree(&base_tree).unwrap();
    idx.write().unwrap();
}

#[test]
fn current_diff_reports_one_modified_line() {
    let dir = unique_dir("modify");
    let repo = Repository::init(&dir).unwrap();
    let c1 = commit_file(&repo, "HEAD", None, "a.txt", b"hi\n", "init", 1_000_000_000);
    let c2 = commit_file(
        &repo,
        "HEAD",
        Some(c1),
        "a.txt",
        b"hi\nthere\n",
        "more",
        1_000_000_100,
    );
    rewind_to(&repo, c1, c2);

    let handle = opened(&dir);
    let d = get_current_diff(&handle).unwrap();
    assert_eq!(d.files.len(), 1);
    let f = &d.files[0];
    assert_eq!(f.path, "a.txt");
    assert!(matches!(f.status, FileStatus::Modified));
    assert_eq!(f.additions, 1);
    assert_eq!(f.deletions, 0);
    assert_eq!(f.is_large, false);
    assert_eq!(d.stats.additions, 1);
    assert_eq!(d.stats.deletions, 0);
    assert_eq!(d.stats.files, 1);
}

#[test]
fn untracked_files_appear_as_added() {
    let dir = unique_dir("untracked");
    let repo = Repository::init(&dir).unwrap();
    let c1 = commit_file(&repo, "HEAD", None, "a.txt", b"hi\n", "init", 1_000_000_000);
    let c2 = commit_file(&repo, "HEAD", Some(c1), "b.txt", b"new\n", "add b", 1_000_000_100);
    rewind_to(&repo, c1, c2);

    let handle = opened(&dir);
    let d = get_current_diff(&handle).unwrap();
    let b = d.files.iter().find(|f| f.path == "b.txt").unwrap();
    assert!(matches!(b.status, FileStatus::Added));
}

#[test]
fn commit_history_pages_and_total() {
    let dir = unique_dir("history");
    let repo = Repository::init(&dir).unwrap();
    let mut prev: Option<Oid> = None;
    for i in 1..=5 {
        let name = format!("f{}.txt", i);
        let msg = format!("c{}", i);
        let oid = commit_file(
            &repo,
            "HEAD",
            prev,
            &name,
            b"line\n",
            &msg,
            1_000_000_000 + i * 100,
        );
        prev = Some(oid);
    }

    let handle = opened(&dir);
    let h = get_commit_history(&handle, 2, 0).unwrap();
    assert_eq!(h.total, 5);
    assert_eq!(h.commits.len(), 2);
    assert_eq!(h.commits[0].message, "c5");
    assert_eq!(h.commits[1].message, "c4");
    assert_eq!(h.commits[0].short_sha, h.commits[0].sha[..7]);
    assert_eq!(h.commits[0].stats.files, 1);
    assert_eq!(h.commits[0].stats.additions, 1);

    // Pages at offsets 0, 2, 4 concatenate to the full ordered history,
    // and total never depends on the page.
    let mut messages: Vec<String> = Vec::new();
    for offset in [0usize, 2, 4] {
        let page = get_commit_history(&handle, 2, offset).unwrap();
        assert_eq!(page.total, 5);
        for c in page.commits {
            messages.push(c.message);
        }
    }
    assert_eq!(messages, vec!["c5", "c4", "c3", "c2", "c1"]);

    // An offset past the end yields an empty page with the right total.
    let beyond = get_commit_history(&handle, 2, 10).unwrap();
    assert_eq!(beyond.total, 5);
    assert_eq!(beyond.commits.len(), 0);
}

#[test]
fn commit_diff_of_initial_commit_lists_tree_as_added() {
    let dir = unique_dir("initial");
    let repo = Repository::init(&dir).unwrap();
    let c1 = commit_file(&repo, "HEAD", None, "a.txt", b"hi\n", "init", 1_000_000_000);

    let handle = opened(&dir);
    let cd = get_commit_diff(&handle, &c1.to_string()).unwrap();
    assert_eq!(cd.files.len(), 1);
    assert_eq!(cd.files[0].path, "a.txt");
    assert!(matches!(cd.files[0].status, FileStatus::Added));
    assert_eq!(cd.files[0].additions, 1);
    assert_eq!(cd.files[0].deletions, 0);
    assert_eq!(cd.commit.stats.files, 1);
    assert_eq!(cd.commit.stats.additions, 1);
    assert_eq!(cd.commit.stats.deletions, 0);
    assert_eq!(cd.commit.message, "init");
    assert_eq!(cd.commit.short_sha, cd.commit.sha[..7]);
}

#[test]
fn commit_diff_rejects_unknown_shas() {
    let dir = unique_dir("badsha");
    let repo = Repository::init(&dir).unwrap();
    commit_file(&repo, "HEAD", None, "a.txt", b"hi\n", "init", 1_000_000_000);

    let handle = opened(&dir);
    let err = get_commit_diff(&handle, "zzz").unwrap_err();
    assert!(matches!(err, GitError::CommitNotFound(ref s) if s == "zzz"));
    let missing = "0123456789abcdef0123456789abcdef01234567";
    let err2 = get_commit_diff(&handle, missing).unwrap_err();
    assert!(matches!(err2, GitError::CommitNotFound(_)));
}

#[test]
fn branch_comparison_is_asymmetric() {
    let dir = unique_dir("branching");
    let repo = Repository::init(&dir).unwrap();
    let c1 = commit_file(&repo, "HEAD", None, "a.txt", b"1\n", "c1", 1_000_000_000);
    let c2 = commit_file(&repo, "HEAD", Some(c1), "b.txt", b"2\n", "c2", 1_000_000_100);
    let c3 = commit_file(&repo, "HEAD", Some(c2), "c.txt", b"3\n", "c3", 1_000_000_200);
    repo.branch("main", &repo.find_commit(c3).unwrap(), true).unwrap();
    repo.branch("feature", &repo.find_commit(c3).unwrap(), true).unwrap();
    let f1 = commit_file(
        &repo,
        "refs/heads/feature",
        Some(c3),
        "d.txt",
        b"4\n",
        "f1",
        1_000_000_300,
    );
    commit_file(
        &repo,
        "refs/heads/feature",
        Some(f1),
        "e.txt",
        b"5\n",
        "f2",
        1_000_000_400,
    );

    let handle = opened(&dir);
    let fwd = compare_branches(&handle, "main", "feature").unwrap();
    assert_eq!(fwd.commit_count, 2);
    assert_eq!(fwd.stats.files, 2);
    assert_eq!(fwd.stats.additions, 2);
    let back = compare_branches(&handle, "feature", "main").unwrap();
    assert_eq!(back.commit_count, 0);
    assert_eq!(back.stats.files, 2);
    assert_eq!(back.stats.deletions, 2);

    let bl = get_branches(&handle).unwrap();
    let main = bl.branches.iter().find(|b| b.name == "main").unwrap();
    assert_eq!(main.commit, c3.to_string()[..7]);
    let feature = bl.branches.iter().find(|b| b.name == "feature").unwrap();
    assert_eq!(feature.commit.len(), 7);
}

#[test]
fn remote_origin_round_trip() {
    let dir = unique_dir("origin");
    let repo = Repository::init(&dir).unwrap();
    commit_file(&repo, "HEAD", None, "a.txt", b"hi\n", "init", 1_000_000_000);
    repo.remote("origin", "git@gitlab.example.com:team/proj.git").unwrap();

    let handle = opened(&dir);
    let r = get_remote_url(&handle).unwrap().unwrap();
    assert_eq!(r.url, "https://gitlab.example.com/team/proj");
    assert!(matches!(r.provider, GitProvider::Gitlab));
    assert_eq!(r.owner, "team");
    assert_eq!(r.repo, "proj");
}

#[test]
fn missing_remote_is_none_not_error() {
    let dir = unique_dir("noremote");
    let repo = Repository::init(&dir).unwrap();
    commit_file(&repo, "HEAD", None, "a.txt", b"hi\n", "init", 1_000_000_000);
    let handle = opened(&dir);
    assert!(get_remote_url(&handle).unwrap().is_none());
}

#[test]
fn oversize_patch_is_elided_with_counts_kept() {
    let dir = unique_dir("oversize");
    let repo = Repository::init(&dir).unwrap();
    let c1 = commit_file(&repo, "HEAD", None, "big.txt", b"x\n", "init", 1_000_000_000);
    let body = "0123456789012345678\n".repeat(3000);
    let c2 = commit_file(
        &repo,
        "HEAD",
        Some(c1),
        "big.txt",
        body.as_bytes(),
        "grow",
        1_000_000_100,
    );
    rewind_to(&repo, c1, c2);

    let handle = opened(&dir);
    let d = get_current_diff(&handle).unwrap();
    assert_eq!(d.files.len(), 1);
    let f = &d.files[0];
    assert_eq!(f.is_large, true);
    assert_eq!(f.patch, "");
    assert!(f.additions > 0);
    assert_eq!(f.additions, 3000);
    assert_eq!(f.deletions, 1);

    // The escape hatch still renders the whole patch on demand.
    let patch = get_file_patch(&handle, "big.txt").unwrap();
    assert!(patch.len() > 50000);
    assert!(patch.contains("+0123456789012345678\n"));
    assert!(patch.contains("-x\n"));
}

#[test]
fn file_patch_of_unchanged_path_is_empty() {
    let dir = unique_dir("nopatch");
    let repo = Repository::init(&dir).unwrap();
    commit_file(&repo, "HEAD", None, "a.txt", b"hi\n", "init", 1_000_000_000);
    let mut cb = git2::build::CheckoutBuilder::new();
    cb.force();
    repo.checkout_head(Some(&mut cb)).unwrap();
    let handle = opened(&dir);
    assert_eq!(get_file_patch(&handle, "a.txt").unwrap(), "");
}

#[test]
fn file_contents_at_a_revision() {
    let dir = unique_dir("contents");
    let repo = Repository::init(&dir).unwrap();
    let c1 = commit_file(&repo, "HEAD", None, "a.txt", b"hi\n", "init", 1_000_000_000);
    commit_file(&repo, "HEAD", Some(c1), "a.txt", b"hi\nthere\n", "more", 1_000_000_100);

    let handle = opened(&dir);
    let old = get_file_contents(&handle, "a.txt", &c1.to_string()).unwrap();
    assert_eq!(old, "hi\n");
    let new = get_file_contents(&handle, "a.txt", "HEAD").unwrap();
    assert_eq!(new, "hi\nthere\n");
    assert!(get_file_contents(&handle, "missing.txt", "HEAD").is_err());
}

#[test]
fn open_repo_fails_outside_any_repository() {
    match open_repo("/tmp") {
        Ok(_) => panic!("expected no repository at /tmp"),
        Err(err) => assert!(matches!(err, GitError::RepoNotFound(ref p) if p == "/tmp")),
    }
}

#[test]
fn commit_dates_are_utc_iso8601() {
    let dir = unique_dir("dates");
    let repo = Repository::init(&dir).unwrap();
    commit_file(&repo, "HEAD", None, "a.txt", b"hi\n", "init", 1_000_000_000);
    let handle = opened(&dir);
    let h = get_commit_history(&handle, 1, 0).unwrap();
    assert_eq!(h.commits[0].date, "2001-09-09T01:46:40Z");
}
