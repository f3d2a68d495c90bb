//! The diff engine's repository operations: opening a repository,
//! working-tree and commit diffs, commit history, branch queries, file
//! contents at a revision, and remote provenance.
//!
//! Every call into the version-control library stands behind a trusted
//! wrapper returning plain values; the summarising, pagination and
//! record-building logic around the wrappers is verified.

use vstd::prelude::*;
use vstd::string::StrSliceExecFns;
use vstd::string::StringExecFns;
use vstd::utf8::{decode_utf8, valid_utf8};
use crate::diff::{
    DiffEvent, large_files_empty, no_inline_contents, parse_diff, utf8_str,
    push_origin,
};
use crate::remote::{parse_remote_url, remote_of};
use crate::types::{
    BranchInfo, BranchList, CommitDiff, CommitHistory, CommitInfo, CommitStats,
    CompareBranchesResult, DiffResult, RemoteInfo, commit_stats_consistent, stats_consistent,
};

verus! {

/// The byte cap above which a file's patch is discarded from the
/// working-tree diff and fetched on demand instead.
pub const MAX_PATCH_SIZE: usize = 50000;

#[verifier::external_type_specification]
#[verifier::external_body]
pub struct ExRepository(git2::Repository);

#[verifier::external_type_specification]
#[verifier::external_body]
pub struct ExGitError(git2::Error);

#[verifier::external_type_specification]
#[verifier::external_body]
pub struct ExDiff<'a>(git2::Diff<'a>);

#[verifier::external_type_specification]
#[verifier::external_body]
pub struct ExDiffDelta<'a>(git2::DiffDelta<'a>);

#[verifier::external_type_specification]
#[verifier::external_body]
pub struct ExDelta(git2::Delta);

#[verifier::external_type_specification]
#[verifier::external_body]
pub struct ExDiffLine<'a>(git2::DiffLine<'a>);

/// The failure surface of the diff engine.
#[derive(Debug)]
pub enum GitError {
    Git(git2::Error),
    RepoNotFound(String),
    CommitNotFound(String),
    Io(String),
    NoWorkdir,
}

impl GitError {
    /// The error rendered for display.
    pub fn message(&self) -> (r: String)
        ensures
            self matches GitError::RepoNotFound(p) ==> r@ == "Repository not found at "@ + p@,
            self matches GitError::CommitNotFound(c) ==> r@ == "Commit not found: "@ + c@,
            self matches GitError::Io(m) ==> r@ == "IO error: "@ + m@,
            self is NoWorkdir ==> r@ == "No working directory"@,
    {
        match self {
            GitError::Git(e) => {
                let t = git_error_text(e);
                String::from_str("Git error: ").concat(t.as_str())
            },
            GitError::RepoNotFound(p) => String::from_str("Repository not found at ").concat(
                p.as_str(),
            ),
            GitError::CommitNotFound(c) => String::from_str("Commit not found: ").concat(
                c.as_str(),
            ),
            GitError::Io(m) => String::from_str("IO error: ").concat(m.as_str()),
            GitError::NoWorkdir => String::from_str("No working directory"),
        }
    }
}

/// Plain metadata of one commit, as the repository reports it.
pub struct CommitMeta {
    pub sha: String,
    pub message: String,
    pub author: String,
    pub email: String,
    pub time: i64,
}

/// One local branch, as the repository reports it.
pub struct BranchMeta {
    pub name: String,
    pub is_head: bool,
    pub sha: String,
}

/// One line of a printed patch: its origin marker and raw bytes.
pub struct PrintLine {
    pub origin: char,
    pub content: Vec<u8>,
}

/// Forty lowercase hexadecimal digits: the canonical rendering of an
/// object id.
pub open spec fn is_lower_hex40(s: Seq<char>) -> bool {
    &&& s.len() == 40
    &&& forall|i: int|
        0 <= i < s.len() ==> ('0' <= #[trigger] s[i] <= '9' || 'a' <= s[i] <= 'f')
}

/// What chrono renders a Unix timestamp as, in UTC at second precision
/// with a trailing `Z`; the empty sequence for out-of-range values.
pub uninterp spec fn iso_utc_of(secs: int) -> Seq<char>;

/// What lossy UTF-8 decoding makes of a byte sequence.
pub uninterp spec fn lossy_utf8_of(bytes: Seq<u8>) -> Seq<char>;

/// Relies on git2's Repository::discover: walks up from `path` to the
/// nearest enclosing repository.
#[verifier::external_body]
fn discover_repo(path: &str) -> (r: Result<git2::Repository, git2::Error>) {
    git2::Repository::discover(path)
}

/// Relies on git2's Repository::head, Reference::peel_to_tree,
/// DiffOptions and Repository::diff_tree_to_workdir_with_index: the diff
/// from the checked-out tree to the working directory plus index, with
/// untracked contents and a single-path restriction as asked.
#[verifier::external_body]
fn make_workdir_diff<'r>(
    repo: &'r git2::Repository,
    pathspec: Option<&str>,
    untracked: bool,
) -> (r: Result<git2::Diff<'r>, git2::Error>) {
    let tree = repo.head().and_then(|h| h.peel_to_tree())?;
    let mut opts = git2::DiffOptions::new();
    if untracked {
        opts.include_untracked(true).recurse_untracked_dirs(true);
    }
    if let Some(p) = pathspec {
        opts.pathspec(p);
    }
    repo.diff_tree_to_workdir_with_index(Some(&tree), Some(&mut opts))
}

/// Relies on git2's Oid::from_str, Repository::find_commit, Commit::tree
/// and Repository::diff_tree_to_tree: the diff between two commits'
/// trees, the base tree empty when no base is given.
#[verifier::external_body]
fn make_tree_diff<'r>(
    repo: &'r git2::Repository,
    base_sha: Option<&str>,
    head_sha: &str,
) -> (r: Result<git2::Diff<'r>, git2::Error>) {
    let head_tree = repo.find_commit(git2::Oid::from_str(head_sha)?)?.tree()?;
    let base_tree = match base_sha {
        Some(s) => Some(repo.find_commit(git2::Oid::from_str(s)?)?.tree()?),
        None => None,
    };
    repo.diff_tree_to_tree(base_tree.as_ref(), Some(&head_tree), None)
}

/// Relies on git2's DiffDelta: the old-side and new-side paths of one
/// delta, rendered lossily.
#[verifier::external_body]
fn delta_paths(d: &git2::DiffDelta) -> (r: crate::diff::DeltaPaths) {
    crate::diff::DeltaPaths {
        new_path: d.new_file().path().map(|p| p.to_string_lossy().into_owned()),
        old_path: d.old_file().path().map(|p| p.to_string_lossy().into_owned()),
    }
}

/// Relies on git2's Delta: each variant the engine distinguishes kept
/// apart, every other one grouped as `Other`.
#[verifier::external_body]
fn delta_kind(s: git2::Delta) -> (r: crate::diff::DeltaKind) {
    match s {
        git2::Delta::Added => crate::diff::DeltaKind::Added,
        git2::Delta::Untracked => crate::diff::DeltaKind::Untracked,
        git2::Delta::Deleted => crate::diff::DeltaKind::Deleted,
        git2::Delta::Renamed => crate::diff::DeltaKind::Renamed,
        _ => crate::diff::DeltaKind::Other,
    }
}

/// Relies on git2's DiffDelta: the file-level event for one delta.
#[verifier::external_body]
fn file_event(d: &git2::DiffDelta) -> (r: DiffEvent) {
    DiffEvent::FileStart { paths: delta_paths(d), kind: delta_kind(d.status()) }
}

/// Relies on git2's DiffLine: the line-level event for one line of a
/// delta's patch, with its origin marker and raw bytes.
#[verifier::external_body]
fn line_event(d: &git2::DiffDelta, l: &git2::DiffLine) -> (r: DiffEvent) {
    DiffEvent::Line { paths: delta_paths(d), origin: l.origin(), content: l.content().to_vec() }
}

/// Relies on git2's Diff::foreach: the file callback fires once per
/// changed path, and the line callback once per diff line, all lines of
/// one file before the next file begins.
#[verifier::external_body]
fn collect_diff_events(diff: &git2::Diff) -> (r: Result<Vec<DiffEvent>, git2::Error>) {
    let evs: std::cell::RefCell<Vec<DiffEvent>> = std::cell::RefCell::new(Vec::new());
    let res = diff.foreach(
        &mut |d, _| { evs.borrow_mut().push(file_event(&d)); true },
        None,
        None,
        Some(&mut |d, _h, l| { evs.borrow_mut().push(line_event(&d, &l)); true }),
    );
    match res { Ok(_) => Ok(evs.into_inner()), Err(e) => Err(e) }
}

/// Relies on git2's Diff::print with the patch format: one callback per
/// printed line, with its origin marker and raw bytes.
#[verifier::external_body]
fn print_patch_lines(diff: &git2::Diff) -> (r: Result<Vec<PrintLine>, git2::Error>) {
    let mut out: Vec<PrintLine> = Vec::new();
    let res = diff.print(
        git2::DiffFormat::Patch,
        |_d, _h, l| {
            out.push(PrintLine { origin: l.origin(), content: l.content().to_vec() });
            true
        },
    );
    match res {
        Ok(_) => Ok(out),
        Err(e) => Err(e),
    }
}

/// Relies on git2's Diff::stats: the library's own insertion, deletion
/// and changed-file totals over a diff.
#[verifier::external_body]
fn diff_raw_stats(diff: &git2::Diff) -> (r: Result<CommitStats, git2::Error>) {
    let s = diff.stats()?;
    Ok(CommitStats { additions: s.insertions(), deletions: s.deletions(), files: s.files_changed() })
}

/// Relies on git2's Revwalk pushed at head and sorted by commit time,
/// and on Oid's rendering as forty lowercase hex digits.
#[verifier::external_body]
fn head_commit_ids(repo: &git2::Repository) -> (r: Result<Vec<String>, git2::Error>)
    ensures
        r matches Ok(v) ==> forall|i: int|
            0 <= i < v@.len() ==> is_lower_hex40((#[trigger] v@[i])@),
{
    let mut walk = repo.revwalk()?;
    walk.push_head()?;
    walk.set_sorting(git2::Sort::TIME)?;
    Ok(walk.filter_map(|o| o.ok()).map(|o| o.to_string()).collect())
}

/// Relies on git2's Oid::from_str, Repository::find_commit and the
/// commit accessors.  An id renders as forty lowercase hex digits, so a
/// sha already in that form comes back unchanged.  Absent names, emails
/// and messages arrive as empty strings.
#[verifier::external_body]
fn commit_meta_of(repo: &git2::Repository, sha: &str) -> (r: Result<CommitMeta, git2::Error>)
    ensures
        r matches Ok(m) ==> is_lower_hex40(m.sha@) && (is_lower_hex40(sha@) ==> m.sha@ == sha@),
{
    let commit = repo.find_commit(git2::Oid::from_str(sha)?)?;
    let author = commit.author();
    let meta = CommitMeta {
        sha: commit.id().to_string(),
        message: commit.message().unwrap_or("").to_string(),
        author: author.name().unwrap_or("").to_string(),
        email: author.email().unwrap_or("").to_string(),
        time: commit.time().seconds(),
    };
    Ok(meta)
}

/// Relies on git2's Commit::parent_count and Commit::parent: the first
/// parent's id when one exists.
#[verifier::external_body]
fn commit_parent_sha(repo: &git2::Repository, sha: &str) -> (r: Result<
    Option<String>,
    git2::Error,
>)
    ensures
        r matches Ok(p) ==> (p matches Some(s) ==> s@.len() == 40),
{
    let c = repo.find_commit(git2::Oid::from_str(sha)?)?;
    if c.parent_count() > 0 {
        Ok(Some(c.parent(0)?.id().to_string()))
    } else {
        Ok(None)
    }
}

/// Relies on git2's Repository::resolve_reference_from_short_name and
/// Reference::peel_to_commit: the id of the commit a short branch name
/// points to.
#[verifier::external_body]
fn branch_commit_sha(repo: &git2::Repository, name: &str) -> (r: Result<String, git2::Error>)
    ensures
        r matches Ok(s) ==> s@.len() == 40,
{
    Ok(repo.resolve_reference_from_short_name(name)?.peel_to_commit()?.id().to_string())
}

/// Relies on git2's Repository::graph_ahead_behind: the number of
/// commits reachable from the first id but not from the second.
#[verifier::external_body]
fn count_ahead_of(repo: &git2::Repository, head_sha: &str, base_sha: &str) -> (r: Result<
    usize,
    git2::Error,
>) {
    let head = git2::Oid::from_str(head_sha)?;
    let base = git2::Oid::from_str(base_sha)?;
    let (ahead, _behind) = repo.graph_ahead_behind(head, base)?;
    Ok(ahead)
}

/// Relies on git2's Repository::branches over local branches, and on
/// Branch::name, Branch::is_head and Reference::peel_to_commit.
#[verifier::external_body]
fn local_branch_metas(repo: &git2::Repository) -> (r: Result<Vec<BranchMeta>, git2::Error>)
    ensures
        r matches Ok(v) ==> forall|i: int|
            0 <= i < v@.len() ==> (#[trigger] v@[i]).sha@.len() == 40,
{
    let mut out: Vec<BranchMeta> = Vec::new();
    for entry in repo.branches(Some(git2::BranchType::Local))? {
        let (b, _) = entry?;
        let name = b.name()?.unwrap_or("").to_string();
        let sha = b.get().peel_to_commit()?.id().to_string();
        out.push(BranchMeta { name, is_head: b.is_head(), sha });
    }
    Ok(out)
}

/// Relies on git2's Repository::head and Reference::shorthand: the
/// checked-out branch's short name, absent when the head is detached
/// past naming.
#[verifier::external_body]
fn head_shorthand_of(repo: &git2::Repository) -> (r: Result<Option<String>, git2::Error>) {
    let h = repo.head()?;
    Ok(h.shorthand().ok().map(|s| s.to_string()))
}

/// Relies on git2's Repository::revparse_single and Object::peel_to_blob:
/// the bytes of the blob at `REF:PATH`.
#[verifier::external_body]
fn blob_bytes_at(repo: &git2::Repository, git_ref: &str, path: &str) -> (r: Result<
    Vec<u8>,
    git2::Error,
>) {
    let obj = repo.revparse_single(&format!("{}:{}", git_ref, path))?;
    Ok(obj.peel_to_blob()?.content().to_vec())
}

/// Relies on git2's Repository::find_remote and Remote::url: the URL of
/// the remote named `origin`, absent when the remote or its URL is.
#[verifier::external_body]
fn remote_origin_url(repo: &git2::Repository) -> (r: Option<String>) {
    match repo.find_remote("origin") {
        Ok(rem) => match rem.url() {
            Ok(u) => Some(u.to_string()),
            Err(_) => None,
        },
        Err(_) => None,
    }
}

/// Relies on git2's Error::message for the human-readable text.
#[verifier::external_body]
fn git_error_text(e: &git2::Error) -> (r: String) {
    e.message().to_string()
}

/// Relies on chrono's DateTime::from_timestamp and its formatter: the
/// rendered text is a function of the seconds value alone; out-of-range
/// values render as the empty string.
#[verifier::external_body]
fn format_iso_utc(secs: i64) -> (r: String)
    ensures
        r@ == iso_utc_of(secs as int),
{
    chrono::DateTime::from_timestamp(secs, 0)
        .map(|dt| dt.format("%Y-%m-%dT%H:%M:%SZ").to_string())
        .unwrap_or_default()
}

/// Relies on String::from_utf8_lossy: a function of the bytes alone,
/// and the exact decoding wherever the bytes are valid UTF-8.
#[verifier::external_body]
fn lossy_string(bytes: &Vec<u8>) -> (r: String)
    ensures
        r@ == lossy_utf8_of(bytes@),
        valid_utf8(bytes@) ==> r@ == decode_utf8(bytes@),
{
    String::from_utf8_lossy(bytes.as_slice()).to_string()
}

/// Open the repository enclosing `path`, the only failure of which is
/// that there is none.
pub fn open_repo(path: &str) -> (r: Result<git2::Repository, GitError>)
    ensures
        r matches Err(e) ==> e matches GitError::RepoNotFound(p) && p@ == path@,
{
    match discover_repo(path) {
        Ok(repo) => Ok(repo),
        Err(_) => Err(GitError::RepoNotFound(path.to_owned())),
    }
}

/// The working-tree diff against the checked-out commit's tree, with
/// untracked files included and per-file patches capped at
/// [`MAX_PATCH_SIZE`] bytes.  The totals always agree with the file
/// list, no record carries inline contents, and a record marked large
/// has an empty patch.
pub fn get_current_diff(repo: &git2::Repository) -> (r: Result<DiffResult, GitError>)
    ensures
        r matches Ok(d) ==> stats_consistent(d.files@, d.stats) && no_inline_contents(d.files@)
            && large_files_empty(d.files@),
        r matches Err(e) ==> e is Git,
{
    let diff = match make_workdir_diff(repo, None, true) {
        Ok(d) => d,
        Err(e) => return Err(GitError::Git(e)),
    };
    let events = match collect_diff_events(&diff) {
        Ok(v) => v,
        Err(e) => return Err(GitError::Git(e)),
    };
    Ok(parse_diff(&events, MAX_PATCH_SIZE))
}

/// The text one printed line contributes to a patch: the origin marker
/// when it is `+`, `-` or space, then the line's bytes decoded as UTF-8
/// (nothing when they are not valid UTF-8).
pub open spec fn printed_line(l: PrintLine) -> Seq<char> {
    (if l.origin == '+' || l.origin == '-' || l.origin == ' ' {
        seq![l.origin]
    } else {
        Seq::<char>::empty()
    }) + (if valid_utf8(l.content@) {
        decode_utf8(l.content@)
    } else {
        Seq::<char>::empty()
    })
}

/// The concatenation of every printed line's text.
pub open spec fn render_patch_spec(lines: Seq<PrintLine>) -> Seq<char>
    decreases lines.len(),
{
    if lines.len() == 0 {
        Seq::empty()
    } else {
        render_patch_spec(lines.drop_last()) + printed_line(lines.last())
    }
}

/// Concatenate printed diff lines into one patch text, exactly as
/// `render_patch_spec` folds them.
pub fn render_patch(lines: &Vec<PrintLine>) -> (r: String)
    ensures
        r@ == render_patch_spec(lines@),
{
    let n = lines.len();
    let mut out = String::new();
    let mut i: usize = 0;
    while i < n
        invariant
            n == lines@.len(),
            i <= n,
            out@ == render_patch_spec(lines@.take(i as int)),
        decreases n - i,
    {
        let l = &lines[i];
        let ghost pre = out@;
        if l.origin == '+' || l.origin == '-' || l.origin == ' ' {
            push_origin(&mut out, l.origin);
        }
        match utf8_str(l.content.as_slice()) {
            Some(cs) => {
                out.append(cs);
            },
            None => {},
        }
        proof {
            assert(out@ =~= pre + printed_line(lines@[i as int]));
            assert(lines@.take(i + 1).drop_last() =~= lines@.take(i as int));
            assert(lines@.take(i + 1).last() == lines@[i as int]);
        }
        i = i + 1;
    }
    proof {
        assert(lines@.take(n as int) =~= lines@);
    }
    out
}

/// The uncapped unified-diff text of a single path against the working
/// tree: the escape hatch for files whose patch the working-tree diff
/// discarded.  The text is the verified rendering of whatever lines the
/// repository printed; an unchanged path prints no lines and yields the
/// empty string.
pub fn get_file_patch(repo: &git2::Repository, file_path: &str) -> (r: Result<String, GitError>)
    ensures
        r matches Err(e) ==> e is Git,
{
    let diff = match make_workdir_diff(repo, Some(file_path), false) {
        Ok(d) => d,
        Err(e) => return Err(GitError::Git(e)),
    };
    let lines = match print_patch_lines(&diff) {
        Ok(v) => v,
        Err(e) => return Err(GitError::Git(e)),
    };
    Ok(render_patch(&lines))
}

/// The display record of one commit from its plain metadata and an
/// optional stats summary: full and seven-character ids, fields kept
/// verbatim, the authored time rendered as UTC ISO-8601, and zeroed
/// stats when none were computed.
pub fn commit_to_info(meta: &CommitMeta, stats: Option<CommitStats>) -> (r: CommitInfo)
    requires
        meta.sha@.len() >= 7,
    ensures
        r.sha@ == meta.sha@,
        r.short_sha@ == meta.sha@.subrange(0, 7),
        r.message@ == meta.message@,
        r.author@ == meta.author@,
        r.author_email@ == meta.email@,
        r.date@ == iso_utc_of(meta.time as int),
        r.stats == (match stats {
            Some(s) => s,
            None => CommitStats { additions: 0, deletions: 0, files: 0 },
        }),
{
    let st = match stats {
        Some(s) => s,
        None => CommitStats { additions: 0, deletions: 0, files: 0 },
    };
    CommitInfo {
        sha: meta.sha.clone(),
        short_sha: meta.sha.as_str().substring_char(0, 7).to_owned(),
        message: meta.message.clone(),
        author: meta.author.clone(),
        author_email: meta.email.clone(),
        date: format_iso_utc(meta.time),
        stats: st,
    }
}

/// Per-commit totals from the repository's own diff summary, computed
/// against the first parent's tree, or the empty tree for the initial
/// commit.
pub fn calculate_commit_stats(repo: &git2::Repository, sha: &str) -> (r: Result<
    CommitStats,
    GitError,
>)
    ensures
        r matches Err(e) ==> e is Git,
{
    let parent = match commit_parent_sha(repo, sha) {
        Ok(p) => p,
        Err(e) => return Err(GitError::Git(e)),
    };
    let parent_ref = match &parent {
        Some(s) => Some(s.as_str()),
        None => None,
    };
    let diff = match make_tree_diff(repo, parent_ref, sha) {
        Ok(d) => d,
        Err(e) => return Err(GitError::Git(e)),
    };
    match diff_raw_stats(&diff) {
        Ok(s) => Ok(s),
        Err(e) => Err(GitError::Git(e)),
    }
}

/// The display record of one commit, or nothing when it can no longer be
/// looked up.  A failure of the stats summary alone is swallowed as
/// zeroes: listing the history must not fail on one pathological commit.
pub fn commit_info_for(repo: &git2::Repository, sha: &str) -> (r: Option<CommitInfo>)
    ensures
        r matches Some(ci) ==> ci.sha@.len() == 40 && ci.short_sha@ == ci.sha@.subrange(0, 7)
            && (is_lower_hex40(sha@) ==> ci.sha@ == sha@),
{
    match commit_meta_of(repo, sha) {
        Err(_) => None,
        Ok(meta) => {
            let stats = match calculate_commit_stats(repo, meta.sha.as_str()) {
                Ok(s) => Some(s),
                Err(_) => None,
            };
            Some(commit_to_info(&meta, stats))
        },
    }
}

/// Where a page starts in a history of `total` commits: at `offset`,
/// clamped to the end.
pub open spec fn page_lo(total: int, offset: int) -> int {
    if offset <= total {
        offset
    } else {
        total
    }
}

/// Where a page ends: `limit` past its start, clamped to the end.
pub open spec fn page_hi(total: int, limit: int, offset: int) -> int {
    if page_lo(total, offset) + limit <= total {
        page_lo(total, offset) + limit
    } else {
        total
    }
}

/// Pages tile the history: the first page starts at the beginning, and
/// every page ends exactly where the page at the next offset begins — so
/// the pages at offsets `0, L, 2L, …` concatenate, in order, to the
/// whole index range of the history, whatever `L > 0`.
pub proof fn lemma_pages_tile(total: int, limit: int, offset: int)
    requires
        0 <= total,
        0 <= offset,
        1 <= limit,
    ensures
        page_lo(total, 0) == 0,
        page_hi(total, limit, offset) == page_lo(total, offset + limit),
        page_lo(total, offset) <= page_hi(total, limit, offset) <= total,
        offset >= total ==> page_lo(total, offset) == page_hi(total, limit, offset),
{
}

/// `sha` is one of the ids at an index in `[lo, hi)`.
pub open spec fn sha_among(ids: Seq<String>, lo: int, hi: int, sha: Seq<char>) -> bool {
    exists|k: int| lo <= k < hi && sha == (#[trigger] ids[k])@
}

/// One page of the history over an already-walked id list.  `total` is
/// the number of walked commits whatever page was asked for; the page
/// holds at most `limit` records, drawn in walk order from the ids at
/// `offset` on — each record carries one of the page's own ids — and
/// ids that can no longer be looked up are skipped.
pub fn history_page(
    repo: &git2::Repository,
    ids: &Vec<String>,
    limit: usize,
    offset: usize,
) -> (h: CommitHistory)
    requires
        forall|i: int| 0 <= i < ids@.len() ==> is_lower_hex40((#[trigger] ids@[i])@),
    ensures
        h.total == ids@.len(),
        h.commits@.len() <= limit,
        h.commits@.len() <= page_hi(ids@.len() as int, limit as int, offset as int) - page_lo(
            ids@.len() as int,
            offset as int,
        ),
        forall|j: int|
            0 <= j < h.commits@.len() ==> (#[trigger] h.commits@[j]).sha@.len() == 40
                && h.commits@[j].short_sha@ == h.commits@[j].sha@.subrange(0, 7),
        forall|j: int|
            0 <= j < h.commits@.len() ==> sha_among(
                ids@,
                page_lo(ids@.len() as int, offset as int),
                page_hi(ids@.len() as int, limit as int, offset as int),
                (#[trigger] h.commits@[j]).sha@,
            ),
{
    let n = ids.len();
    let lo = if offset <= n {
        offset
    } else {
        n
    };
    let hi = if limit <= n - lo {
        lo + limit
    } else {
        n
    };
    proof {
        assert(lo == page_lo(n as int, offset as int));
        assert(hi == page_hi(n as int, limit as int, offset as int));
    }
    let mut commits: Vec<CommitInfo> = Vec::new();
    let mut i: usize = lo;
    while i < hi
        invariant
            n == ids@.len(),
            lo <= i <= hi <= n,
            lo == page_lo(n as int, offset as int),
            hi == page_hi(n as int, limit as int, offset as int),
            forall|k: int| 0 <= k < ids@.len() ==> is_lower_hex40((#[trigger] ids@[k])@),
            commits@.len() <= i - lo,
            forall|j: int|
                0 <= j < commits@.len() ==> (#[trigger] commits@[j]).sha@.len() == 40
                    && commits@[j].short_sha@ == commits@[j].sha@.subrange(0, 7),
            forall|j: int|
                0 <= j < commits@.len() ==> sha_among(
                    ids@,
                    lo as int,
                    i as int,
                    (#[trigger] commits@[j]).sha@,
                ),
        decreases hi - i,
    {
        let ghost pre = commits@;
        match commit_info_for(repo, ids[i].as_str()) {
            Some(ci) => {
                proof {
                    assert(ci.sha@ == (ids@[i as int])@);
                }
                commits.push(ci);
            },
            None => {},
        }
        proof {
            assert forall|j: int| 0 <= j < commits@.len() implies sha_among(
                ids@,
                lo as int,
                i + 1,
                (#[trigger] commits@[j]).sha@,
            ) by {
                if j < pre.len() {
                    let k = choose|k: int|
                        lo <= k < i && pre[j].sha@ == (#[trigger] ids@[k])@;
                    assert(lo <= k < i + 1 && commits@[j].sha@ == (ids@[k])@);
                } else {
                    assert(lo <= i < i + 1 && commits@[j].sha@ == (ids@[i as int])@);
                }
            }
        }
        i = i + 1;
    }
    proof {
        assert forall|j: int| 0 <= j < commits@.len() implies sha_among(
            ids@,
            page_lo(n as int, offset as int),
            page_hi(n as int, limit as int, offset as int),
            (#[trigger] commits@[j]).sha@,
        ) by {
            let k = choose|k: int| lo <= k < i && commits@[j].sha@ == (#[trigger] ids@[k])@;
            assert(page_lo(n as int, offset as int) <= k < page_hi(
                n as int,
                limit as int,
                offset as int,
            ) && commits@[j].sha@ == (ids@[k])@);
        }
    }
    CommitHistory { commits, total: n }
}

/// The commit history, paginated: walk every commit reachable from the
/// head in commit-time-descending order, count them all, and report the
/// page of `limit` records at `offset`.
pub fn get_commit_history(repo: &git2::Repository, limit: usize, offset: usize) -> (r: Result<
    CommitHistory,
    GitError,
>)
    ensures
        r matches Ok(h) ==> h.commits@.len() <= limit && h.commits@.len() <= h.total && forall|
            j: int,
        |
            0 <= j < h.commits@.len() ==> (#[trigger] h.commits@[j]).sha@.len() == 40
                && h.commits@[j].short_sha@ == h.commits@[j].sha@.subrange(0, 7),
        r matches Err(e) ==> e is Git,
{
    let ids = match head_commit_ids(repo) {
        Ok(v) => v,
        Err(e) => return Err(GitError::Git(e)),
    };
    Ok(history_page(repo, &ids, limit, offset))
}

/// The diff one commit introduced, against its first parent or the
/// empty tree, with no byte cap.  The commit record's totals are derived
/// from the returned files, so the displayed list and totals agree
/// exactly; a sha that does not name a commit fails as such.
pub fn get_commit_diff(repo: &git2::Repository, sha: &str) -> (r: Result<CommitDiff, GitError>)
    ensures
        r matches Ok(cd) ==> commit_stats_consistent(cd.files@, cd.commit.stats)
            && no_inline_contents(cd.files@) && large_files_empty(cd.files@)
            && cd.commit.sha@.len() == 40 && cd.commit.short_sha@ == cd.commit.sha@.subrange(0, 7),
        r matches Err(e) ==> (e is CommitNotFound || e is Git) && (e matches
            GitError::CommitNotFound(s) ==> s@ == sha@),
{
    let meta = match commit_meta_of(repo, sha) {
        Ok(m) => m,
        Err(_) => return Err(GitError::CommitNotFound(sha.to_owned())),
    };
    let parent = match commit_parent_sha(repo, sha) {
        Ok(p) => p,
        Err(e) => return Err(GitError::Git(e)),
    };
    let parent_ref = match &parent {
        Some(s) => Some(s.as_str()),
        None => None,
    };
    let diff = match make_tree_diff(repo, parent_ref, sha) {
        Ok(d) => d,
        Err(e) => return Err(GitError::Git(e)),
    };
    let events = match collect_diff_events(&diff) {
        Ok(v) => v,
        Err(e) => return Err(GitError::Git(e)),
    };
    let d = parse_diff(&events, usize::MAX);
    let stats = CommitStats {
        additions: d.stats.additions,
        deletions: d.stats.deletions,
        files: d.stats.files,
    };
    let info = commit_to_info(&meta, Some(stats));
    Ok(CommitDiff { commit: info, files: d.files })
}

/// Compare two branches: the tree-to-tree diff from base to head with
/// no byte cap, and the number of commits reachable from head but not
/// from base — an asymmetric count.  The totals agree with the files.
pub fn compare_branches(repo: &git2::Repository, base: &str, head: &str) -> (r: Result<
    CompareBranchesResult,
    GitError,
>)
    ensures
        r matches Ok(c) ==> stats_consistent(c.files@, c.stats) && no_inline_contents(c.files@)
            && large_files_empty(c.files@),
        r matches Err(e) ==> e is Git,
{
    let base_sha = match branch_commit_sha(repo, base) {
        Ok(s) => s,
        Err(e) => return Err(GitError::Git(e)),
    };
    let head_sha = match branch_commit_sha(repo, head) {
        Ok(s) => s,
        Err(e) => return Err(GitError::Git(e)),
    };
    let commit_count = match count_ahead_of(repo, head_sha.as_str(), base_sha.as_str()) {
        Ok(c) => c,
        Err(e) => return Err(GitError::Git(e)),
    };
    let diff = match make_tree_diff(repo, Some(base_sha.as_str()), head_sha.as_str()) {
        Ok(d) => d,
        Err(e) => return Err(GitError::Git(e)),
    };
    let events = match collect_diff_events(&diff) {
        Ok(v) => v,
        Err(e) => return Err(GitError::Git(e)),
    };
    let d = parse_diff(&events, usize::MAX);
    Ok(CompareBranchesResult { files: d.files, stats: d.stats, commit_count })
}

/// Branch display records from plain branch metadata: names and current
/// flags kept, each commit id cut to its seven-character prefix.
pub fn branch_infos_of(metas: &Vec<BranchMeta>) -> (r: Vec<BranchInfo>)
    requires
        forall|i: int| 0 <= i < metas@.len() ==> (#[trigger] metas@[i]).sha@.len() == 40,
    ensures
        r@.len() == metas@.len(),
        forall|i: int|
            0 <= i < r@.len() ==> {
                &&& (#[trigger] r@[i]).name@ == metas@[i].name@
                &&& r@[i].current == metas@[i].is_head
                &&& r@[i].commit@ == metas@[i].sha@.subrange(0, 7)
            },
{
    let n = metas.len();
    let mut out: Vec<BranchInfo> = Vec::new();
    let mut i: usize = 0;
    while i < n
        invariant
            n == metas@.len(),
            i <= n,
            forall|k: int| 0 <= k < metas@.len() ==> (#[trigger] metas@[k]).sha@.len() == 40,
            out@.len() == i,
            forall|k: int|
                0 <= k < i ==> {
                    &&& (#[trigger] out@[k]).name@ == metas@[k].name@
                    &&& out@[k].current == metas@[k].is_head
                    &&& out@[k].commit@ == metas@[k].sha@.subrange(0, 7)
                },
        decreases n - i,
    {
        let m = &metas[i];
        out.push(
            BranchInfo {
                name: m.name.clone(),
                current: m.is_head,
                commit: m.sha.as_str().substring_char(0, 7).to_owned(),
            },
        );
        i = i + 1;
    }
    out
}

/// All local branches, each with its short name, whether it is checked
/// out, and the seven-character prefix of the commit it points to; and
/// the checked-out branch's shorthand, or empty when the head is
/// detached.
pub fn get_branches(repo: &git2::Repository) -> (r: Result<BranchList, GitError>)
    ensures
        r matches Ok(bl) ==> forall|i: int|
            0 <= i < bl.branches@.len() ==> (#[trigger] bl.branches@[i]).commit@.len() == 7,
        r matches Err(e) ==> e is Git,
{
    let current = match head_shorthand_of(repo) {
        Ok(Some(s)) => s,
        Ok(None) => String::new(),
        Err(e) => return Err(GitError::Git(e)),
    };
    let metas = match local_branch_metas(repo) {
        Ok(v) => v,
        Err(e) => return Err(GitError::Git(e)),
    };
    Ok(BranchList { branches: branch_infos_of(&metas), current })
}

/// The text of the blob at `REF:PATH`, decoded as UTF-8 with lossy
/// replacement.  Reading a path from the working directory is plain file
/// access and is the host's affair; this operation always takes a
/// revision.
pub fn get_file_contents(repo: &git2::Repository, file_path: &str, git_ref: &str) -> (r: Result<
    String,
    GitError,
>)
    ensures
        r matches Err(e) ==> e is Git,
{
    match blob_bytes_at(repo, git_ref, file_path) {
        Ok(b) => Ok(lossy_string(&b)),
        Err(e) => Err(GitError::Git(e)),
    }
}

/// The provenance of the remote named `origin`: nothing when the remote
/// is absent, has no URL, or its URL parses to nothing; else the parsed
/// record, exactly as [`parse_remote_url`] specifies it for the URL that
/// was found.
pub fn get_remote_url(repo: &git2::Repository) -> (r: Result<Option<RemoteInfo>, GitError>)
    ensures
        r matches Ok(o) ==> (o matches Some(ri) ==> exists|u: Seq<char>|
            remote_of(u) == Some(ri.model())),
        r is Ok,
{
    match remote_origin_url(repo) {
        None => Ok(None),
        Some(u) => {
            let parsed = parse_remote_url(u.as_str());
            proof {
                if parsed is Some {
                    assert(remote_of(u@) == Some(parsed->0.model()));
                }
            }
            Ok(parsed)
        },
    }
}

} // verus!
