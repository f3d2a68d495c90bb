//! Wire records returned by the diff engine, and the configuration record
//! of the host, together with the spec functions that contracts state over
//! them.

use vstd::prelude::*;

verus! {

/// How a changed path relates to its previous version.  Untracked but
/// present files are reported as `Added`.
#[derive(Clone, Copy, Debug, PartialEq, Eq, Structural)]
pub enum FileStatus {
    Added,
    Deleted,
    Modified,
    Renamed,
}

/// One record per changed path of a diff.
///
/// `patch` holds the unified-diff text of the file, or is empty when the
/// accumulated text exceeded the byte cap and was discarded; `is_large`
/// records that discard.  `additions` and `deletions` count every `+` and
/// `-` line whether or not the text was kept.  `old_content` and
/// `new_content` are reserved for inline contents and are always absent.
#[derive(Clone, Debug)]
pub struct FileDiffInfo {
    pub path: String,
    pub old_path: Option<String>,
    pub status: FileStatus,
    pub additions: usize,
    pub deletions: usize,
    pub old_content: Option<String>,
    pub new_content: Option<String>,
    pub patch: String,
    pub is_large: bool,
}

/// Totals over the files of one diff.
#[derive(Clone, Copy, Debug)]
pub struct DiffStats {
    pub additions: usize,
    pub deletions: usize,
    pub files: usize,
}

/// The outcome of every diff operation: the changed files and their totals.
#[derive(Clone, Debug)]
pub struct DiffResult {
    pub files: Vec<FileDiffInfo>,
    pub stats: DiffStats,
}

/// The outcome of a branch comparison: the tree-to-tree diff plus the
/// number of commits reachable from the head branch but not from the base.
#[derive(Clone, Debug)]
pub struct CompareBranchesResult {
    pub files: Vec<FileDiffInfo>,
    pub stats: DiffStats,
    pub commit_count: usize,
}

/// Per-commit totals, same shape as `DiffStats`.
#[derive(Clone, Copy, Debug)]
pub struct CommitStats {
    pub additions: usize,
    pub deletions: usize,
    pub files: usize,
}

/// One commit of the history: identifiers, author, date and totals.
#[derive(Clone, Debug)]
pub struct CommitInfo {
    pub sha: String,
    pub short_sha: String,
    pub message: String,
    pub author: String,
    pub author_email: String,
    pub date: String,
    pub stats: CommitStats,
}

/// A page of the commit history.  `total` counts every commit reachable
/// from the current head, whatever page was asked for.
#[derive(Clone, Debug)]
pub struct CommitHistory {
    pub commits: Vec<CommitInfo>,
    pub total: usize,
}

/// The diff introduced by one commit.  `commit.stats` is derived from
/// `files`, so the displayed list and totals agree exactly.
#[derive(Clone, Debug)]
pub struct CommitDiff {
    pub commit: CommitInfo,
    pub files: Vec<FileDiffInfo>,
}

/// One local branch: its short name, whether it is checked out, and the
/// seven-character prefix of the commit it points to.
#[derive(Clone, Debug)]
pub struct BranchInfo {
    pub name: String,
    pub current: bool,
    pub commit: String,
}

/// All local branches, and the shorthand of the checked-out one (empty
/// when the head is detached).
#[derive(Clone, Debug)]
pub struct BranchList {
    pub branches: Vec<BranchInfo>,
    pub current: String,
}

/// One linked working tree of a repository.
#[derive(Clone, Debug)]
pub struct WorktreeInfo {
    pub path: String,
    pub branch: String,
    pub commit: String,
    pub is_current: bool,
    pub behind_main: usize,
    pub ahead_of_main: usize,
    pub last_activity: String,
}

/// All linked working trees.
#[derive(Clone, Debug)]
pub struct WorktreeList {
    pub worktrees: Vec<WorktreeInfo>,
    pub current: String,
}

/// The hosting service a remote URL points at.
#[derive(Clone, Copy, Debug, PartialEq, Eq, Structural)]
pub enum GitProvider {
    Github,
    Gitlab,
    Bitbucket,
    Unknown,
}

/// A parsed remote: the normalized https form of its URL, the detected
/// provider, and the first two path components as owner and repository.
#[derive(Clone, Debug)]
pub struct RemoteInfo {
    pub url: String,
    pub provider: GitProvider,
    pub owner: String,
    pub repo: String,
}

/// The host's persisted configuration.
#[derive(Clone, Debug)]
pub struct DifferConfig {
    pub editor: String,
    pub diff_style: String,
    pub port: u16,
    pub auto_open: bool,
    pub large_file_threshold: usize,
}

/// Sum of the `additions` counters over a sequence of file records.
pub open spec fn sum_additions(files: Seq<FileDiffInfo>) -> int
    decreases files.len(),
{
    if files.len() == 0 {
        0
    } else {
        sum_additions(files.drop_last()) + files.last().additions
    }
}

/// Sum of the `deletions` counters over a sequence of file records.
pub open spec fn sum_deletions(files: Seq<FileDiffInfo>) -> int
    decreases files.len(),
{
    if files.len() == 0 {
        0
    } else {
        sum_deletions(files.drop_last()) + files.last().deletions
    }
}

/// The totals of a diff agree with its file list: `additions` and
/// `deletions` are the sums over the files, and `files` is their number.
pub open spec fn stats_consistent(files: Seq<FileDiffInfo>, stats: DiffStats) -> bool {
    &&& stats.additions == sum_additions(files)
    &&& stats.deletions == sum_deletions(files)
    &&& stats.files == files.len()
}

/// As `stats_consistent`, for the per-commit shape of the totals.
pub open spec fn commit_stats_consistent(files: Seq<FileDiffInfo>, stats: CommitStats) -> bool {
    &&& stats.additions == sum_additions(files)
    &&& stats.deletions == sum_deletions(files)
    &&& stats.files == files.len()
}

/// Appending a record adds its counters to the sums.
pub proof fn lemma_sum_push(files: Seq<FileDiffInfo>, f: FileDiffInfo)
    ensures
        sum_additions(files.push(f)) == sum_additions(files) + f.additions,
        sum_deletions(files.push(f)) == sum_deletions(files) + f.deletions,
{
    assert(files.push(f).drop_last() =~= files);
    assert(files.push(f).last() == f);
}

/// The sums over file records are never negative.
pub proof fn lemma_sum_nonneg(files: Seq<FileDiffInfo>)
    ensures
        sum_additions(files) >= 0,
        sum_deletions(files) >= 0,
    decreases files.len(),
{
    if files.len() > 0 {
        lemma_sum_nonneg(files.drop_last());
    }
}

/// Extending a prefix by one record adds that record's counters.
pub proof fn lemma_sum_take_step(files: Seq<FileDiffInfo>, j: int)
    requires
        0 <= j < files.len(),
    ensures
        sum_additions(files.take(j + 1)) == sum_additions(files.take(j)) + files[j].additions,
        sum_deletions(files.take(j + 1)) == sum_deletions(files.take(j)) + files[j].deletions,
{
    assert(files.take(j + 1).drop_last() =~= files.take(j));
    assert(files.take(j + 1).last() == files[j]);
}

/// A prefix sum never exceeds the whole sum.
pub proof fn lemma_sum_take_le(files: Seq<FileDiffInfo>, j: int)
    requires
        0 <= j <= files.len(),
    ensures
        sum_additions(files.take(j)) <= sum_additions(files),
        sum_deletions(files.take(j)) <= sum_deletions(files),
    decreases files.len() - j,
{
    if j == files.len() {
        assert(files.take(j) =~= files);
    } else {
        lemma_sum_take_step(files, j);
        lemma_sum_take_le(files, j + 1);
    }
}

/// Default editor identifier.
pub fn default_editor() -> (r: String)
    ensures
        r@ == "vscode"@,
{
    "vscode".to_owned()
}

/// Default diff presentation style.
pub fn default_diff_style() -> (r: String)
    ensures
        r@ == "split"@,
{
    "split".to_owned()
}

/// Default port of the host shell.
pub fn default_port() -> (r: u16)
    ensures
        r == 1738,
{
    1738
}

/// Whether the host opens a repository automatically by default.
pub fn default_auto_open() -> (r: bool)
    ensures
        r == true,
{
    true
}

/// Default per-file byte cap above which a patch is discarded.
pub fn default_large_file_threshold() -> (r: usize)
    ensures
        r == 50000,
{
    50000
}

impl Default for DifferConfig {
    /// The configuration the host starts from.
    fn default() -> (r: Self)
        ensures
            r.editor@ == "vscode"@,
            r.diff_style@ == "split"@,
            r.port == 1738,
            r.auto_open == true,
            r.large_file_threshold == 50000,
    {
        DifferConfig {
            editor: default_editor(),
            diff_style: default_diff_style(),
            port: default_port(),
            auto_open: default_auto_open(),
            large_file_threshold: default_large_file_threshold(),
        }
    }
}

} // verus!
