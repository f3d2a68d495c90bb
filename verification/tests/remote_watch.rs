//! Unit tests of remote URL parsing, the watcher's event decisions, the
//! configuration defaults, and error rendering.

use diffcore::remote::{detect_provider, parse_remote_url, remote_info_from_parts};
use diffcore::repo::{commit_to_info, CommitMeta, GitError};
use diffcore::types::{DifferConfig, GitProvider};
use diffcore::watch::change_event_for;

#[test]
fn ssh_form_parses_to_normalized_https() {
    let r = parse_remote_url("git@github.com:foo/bar.git").unwrap();
    assert_eq!(r.url, "https://github.com/foo/bar");
    assert!(matches!(r.provider, GitProvider::Github));
    assert_eq!(r.owner, "foo");
    assert_eq!(r.repo, "bar");
}

#[test]
fn https_form_parses_to_same_record() {
    let a = parse_remote_url("git@github.com:foo/bar.git").unwrap();
    let b = parse_remote_url("https://github.com/foo/bar.git").unwrap();
    assert_eq!(a.url, b.url);
    assert_eq!(a.owner, b.owner);
    assert_eq!(a.repo, b.repo);
    assert!(matches!(b.provider, GitProvider::Github));
}

#[test]
fn gitlab_ssh_example() {
    let r = parse_remote_url("git@gitlab.example.com:team/proj.git").unwrap();
    assert_eq!(r.url, "https://gitlab.example.com/team/proj");
    assert!(matches!(r.provider, GitProvider::Gitlab));
    assert_eq!(r.owner, "team");
    assert_eq!(r.repo, "proj");
}

#[test]
fn deep_paths_keep_url_but_take_first_two_components() {
    let r = parse_remote_url("https://github.com/a/b/c").unwrap();
    assert_eq!(r.url, "https://github.com/a/b/c");
    assert_eq!(r.owner, "a");
    assert_eq!(r.repo, "b");
}

#[test]
fn unparseable_remotes_yield_none() {
    assert!(parse_remote_url("git@github.com").is_none());
    assert!(parse_remote_url("git@h:a:b/c").is_none());
    assert!(parse_remote_url("git@host:pathonly").is_none());
    assert!(parse_remote_url("https://github.com/foo").is_none());
    assert!(parse_remote_url("not a url at all").is_none());
    assert!(parse_remote_url("mailto:someone@example.com").is_none());
}

#[test]
fn provider_detection_by_substring() {
    assert!(matches!(detect_provider("github.com"), GitProvider::Github));
    assert!(matches!(detect_provider("gitlab.mycorp.io"), GitProvider::Gitlab));
    assert!(matches!(detect_provider("bitbucket.org"), GitProvider::Bitbucket));
    assert!(matches!(detect_provider("sr.ht"), GitProvider::Unknown));
}

#[test]
fn parts_extraction_matches_spec() {
    let r = remote_info_from_parts("example.com", "own/rep/extra").unwrap();
    assert_eq!(r.url, "https://example.com/own/rep/extra");
    assert_eq!(r.owner, "own");
    assert_eq!(r.repo, "rep");
    assert!(remote_info_from_parts("example.com", "nopath").is_none());
}

#[test]
fn watcher_drops_internal_paths() {
    assert!(change_event_for("/repo/.git/objects/aa", "/repo", 1).is_none());
    assert!(change_event_for("/repo/.gitignore", "/repo", 1).is_none());
    assert!(change_event_for("/somewhere/.git", "/repo", 1).is_none());
}

#[test]
fn watcher_relativizes_descendants() {
    let ev = change_event_for("/repo/src/a.rs", "/repo", 42).unwrap();
    assert_eq!(ev.event_type, "change");
    assert_eq!(ev.file, "src/a.rs");
    assert_eq!(ev.timestamp, 42);
}

#[test]
fn watcher_falls_back_to_absolute_path() {
    let ev = change_event_for("/elsewhere/x.txt", "/repo", 7).unwrap();
    assert_eq!(ev.file, "/elsewhere/x.txt");
}

#[test]
fn config_defaults() {
    let c = DifferConfig::default();
    assert_eq!(c.editor, "vscode");
    assert_eq!(c.diff_style, "split");
    assert_eq!(c.port, 1738);
    assert!(c.auto_open);
    assert_eq!(c.large_file_threshold, 50000);
}

#[test]
fn commit_record_from_plain_metadata() {
    let meta = CommitMeta {
        sha: "0123456789abcdef0123456789abcdef01234567".to_string(),
        message: "init\n".to_string(),
        author: "Tester".to_string(),
        email: "tester@example.com".to_string(),
        time: 0,
    };
    let info = commit_to_info(&meta, None);
    assert_eq!(info.sha, meta.sha);
    assert_eq!(info.short_sha, "0123456");
    assert_eq!(info.message, "init\n");
    assert_eq!(info.author, "Tester");
    assert_eq!(info.author_email, "tester@example.com");
    assert_eq!(info.date, "1970-01-01T00:00:00Z");
    assert_eq!(info.stats.additions, 0);
    assert_eq!(info.stats.deletions, 0);
    assert_eq!(info.stats.files, 0);
}

#[test]
fn error_messages_render() {
    assert_eq!(
        GitError::RepoNotFound("/x".to_string()).message(),
        "Repository not found at /x"
    );
    assert_eq!(GitError::CommitNotFound("zzz".to_string()).message(), "Commit not found: zzz");
    assert_eq!(GitError::Io("gone".to_string()).message(), "IO error: gone");
    assert_eq!(GitError::NoWorkdir.message(), "No working directory");
}
