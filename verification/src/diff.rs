//! The diff kernel: folding the file- and line-level callbacks of a diff
//! traversal into per-file records with counters, patch text, and a
//! byte-cap escape hatch, plus the totals over all files.
//!
//! The traversal itself happens in the version-control library; it is
//! surfaced here as a sequence of plain [`DiffEvent`] values, over which
//! everything is verified.

use vstd::prelude::*;
use vstd::string::StrSliceExecFns;
use vstd::string::StringExecFns;
use vstd::string::StringSliceAdditionalSpecFns;
use vstd::utf8::{decode_utf8, encode_utf8, valid_utf8};
use crate::types::{
    DiffResult, DiffStats, FileDiffInfo, FileStatus, lemma_sum_nonneg, lemma_sum_push,
    lemma_sum_take_le, lemma_sum_take_step, stats_consistent, sum_additions, sum_deletions,
};

verus! {

/// The change kind the underlying diff reports for one path.  Kinds the
/// engine treats alike (modifications, copies, type changes, …) arrive
/// as `Other`.
#[derive(Clone, Copy, Debug, PartialEq, Eq, Structural)]
pub enum DeltaKind {
    Added,
    Untracked,
    Deleted,
    Renamed,
    Other,
}

/// The old-side and new-side paths of one delta, either of which may be
/// absent.
#[derive(Clone, Debug)]
pub struct DeltaPaths {
    pub new_path: Option<String>,
    pub old_path: Option<String>,
}

/// One callback of a diff traversal: a new changed file, or one line of
/// the current file's patch.
#[derive(Clone, Debug)]
pub enum DiffEvent {
    FileStart { paths: DeltaPaths, kind: DeltaKind },
    Line { paths: DeltaPaths, origin: char, content: Vec<u8> },
}

/// The mathematical shape of one file record while the fold runs.
#[verifier::ext_equal]
pub ghost struct FileModel {
    pub path: Seq<char>,
    pub old_path: Option<Seq<char>>,
    pub status: FileStatus,
    pub additions: nat,
    pub deletions: nat,
    pub patch: Seq<char>,
    pub is_large: bool,
}

impl FileDiffInfo {
    /// The record's mathematical shape.
    pub open spec fn model(self) -> FileModel {
        FileModel {
            path: self.path@,
            old_path: view_opt(self.old_path),
            status: self.status,
            additions: self.additions as nat,
            deletions: self.deletions as nat,
            patch: self.patch@,
            is_large: self.is_large,
        }
    }
}

/// View of an optional string.
pub open spec fn view_opt(o: Option<String>) -> Option<Seq<char>> {
    match o {
        Some(s) => Some(s@),
        None => None,
    }
}

/// The path a delta is filed under: the new side when present, else the
/// old side, else empty.
pub open spec fn current_path_spec(paths: DeltaPaths) -> Seq<char> {
    match paths.new_path {
        Some(p) => p@,
        None => match paths.old_path {
            Some(p) => p@,
            None => Seq::empty(),
        },
    }
}

/// How a delta kind is reported: untracked files count as added, and
/// every kind beyond add, delete and rename is a modification.
pub open spec fn status_of_kind(kind: DeltaKind) -> FileStatus {
    match kind {
        DeltaKind::Added => FileStatus::Added,
        DeltaKind::Untracked => FileStatus::Added,
        DeltaKind::Deleted => FileStatus::Deleted,
        DeltaKind::Renamed => FileStatus::Renamed,
        DeltaKind::Other => FileStatus::Modified,
    }
}

/// The record a file-level callback creates: zeroed counters, empty
/// patch, and the old path kept only for renames.
pub open spec fn fresh_file(paths: DeltaPaths, kind: DeltaKind) -> FileModel {
    FileModel {
        path: current_path_spec(paths),
        old_path: if kind is Renamed {
            view_opt(paths.old_path)
        } else {
            None
        },
        status: status_of_kind(kind),
        additions: 0,
        deletions: 0,
        patch: Seq::empty(),
        is_large: false,
    }
}

/// The text one line contributes to the patch: the origin marker when it
/// is `+`, `-` or space, then the line's bytes decoded as UTF-8 (nothing
/// when they are not valid UTF-8).
pub open spec fn rendered_line(origin: char, content: Seq<u8>) -> Seq<char> {
    (if origin == '+' || origin == '-' || origin == ' ' {
        seq![origin]
    } else {
        Seq::<char>::empty()
    }) + (if valid_utf8(content) {
        decode_utf8(content)
    } else {
        Seq::<char>::empty()
    })
}

/// One line-level callback applied to its file record: bump the counter
/// of its origin, and, unless the record is already marked large, append
/// the rendered text — discarding the whole buffer and marking the
/// record large when it passes the byte cap.
pub open spec fn line_step(f: FileModel, origin: char, content: Seq<u8>, cap: usize) -> FileModel {
    let f1 = FileModel {
        additions: f.additions + (if origin == '+' {
            1nat
        } else {
            0nat
        }),
        deletions: f.deletions + (if origin == '-' {
            1nat
        } else {
            0nat
        }),
        ..f
    };
    if f.is_large {
        f1
    } else {
        let p = f.patch + rendered_line(origin, content);
        if (encode_utf8(p).len() as usize) > cap {
            FileModel { patch: Seq::empty(), is_large: true, ..f1 }
        } else {
            FileModel { patch: p, ..f1 }
        }
    }
}

/// One traversal event applied to the records built so far.  A line is
/// charged to the most recently created record, and only when the
/// delta's path agrees with it — the traversal yields all lines of one
/// file before the next file begins.
pub open spec fn apply_event(files: Seq<FileModel>, ev: DiffEvent, cap: usize) -> Seq<FileModel> {
    match ev {
        DiffEvent::FileStart { paths, kind } => files.push(fresh_file(paths, kind)),
        DiffEvent::Line { paths, origin, content } => {
            if files.len() > 0 && files.last().path == current_path_spec(paths) {
                files.update(
                    files.len() - 1,
                    line_step(files.last(), origin, content@, cap),
                )
            } else {
                files
            }
        },
    }
}

/// The records a whole traversal produces.
pub open spec fn diff_files_model(events: Seq<DiffEvent>, cap: usize) -> Seq<FileModel>
    decreases events.len(),
{
    if events.len() == 0 {
        Seq::empty()
    } else {
        apply_event(diff_files_model(events.drop_last(), cap), events.last(), cap)
    }
}

/// A freshly created or folded record never carries inline contents.
pub open spec fn no_inline_contents(files: Seq<FileDiffInfo>) -> bool {
    forall|i: int|
        0 <= i < files.len() ==> (#[trigger] files[i]).old_content is None
            && files[i].new_content is None
}

/// A record whose patch was discarded for size holds no patch text.
pub open spec fn large_files_empty(files: Seq<FileDiffInfo>) -> bool {
    forall|i: int|
        0 <= i < files.len() ==> ((#[trigger] files[i]).is_large ==> files[i].patch@.len() == 0)
}

/// The file-level events of a traversal, in order.
pub open spec fn start_events(events: Seq<DiffEvent>) -> Seq<DiffEvent>
    decreases events.len(),
{
    if events.len() == 0 {
        Seq::empty()
    } else {
        let pre = start_events(events.drop_last());
        if events.last() is FileStart {
            pre.push(events.last())
        } else {
            pre
        }
    }
}

/// Two record lists agree on everything except patch retention.
pub open spec fn same_counts(a: Seq<FileModel>, b: Seq<FileModel>) -> bool {
    &&& a.len() == b.len()
    &&& forall|i: int|
        0 <= i < a.len() ==> {
            &&& (#[trigger] a[i]).path == b[i].path
            &&& a[i].old_path == b[i].old_path
            &&& a[i].status == b[i].status
            &&& a[i].additions == b[i].additions
            &&& a[i].deletions == b[i].deletions
        }
}

/// Whatever the byte cap, a traversal yields the same records with the
/// same paths, statuses and line counts; the cap decides only which
/// patch texts are kept.  In particular a record marked large still
/// counts every `+` and `-` line of the diff.
pub proof fn lemma_counts_cap_independent(events: Seq<DiffEvent>, cap1: usize, cap2: usize)
    ensures
        same_counts(diff_files_model(events, cap1), diff_files_model(events, cap2)),
    decreases events.len(),
{
    if events.len() > 0 {
        lemma_counts_cap_independent(events.drop_last(), cap1, cap2);
        let a = diff_files_model(events.drop_last(), cap1);
        let b = diff_files_model(events.drop_last(), cap2);
        match events.last() {
            DiffEvent::FileStart { paths, kind } => {
            },
            DiffEvent::Line { paths, origin, content } => {
                if a.len() > 0 {
                    assert(a[a.len() - 1].path == b[b.len() - 1].path);
                }
            },
        }
    }
}

/// Each record of the fold comes from the file-level event that created
/// it: records and file-level events correspond one to one, in order,
/// and a record's path, old path and status are fixed at creation.
pub proof fn lemma_files_from_starts(events: Seq<DiffEvent>, cap: usize)
    ensures
        ({
            let fs = diff_files_model(events, cap);
            let st = start_events(events);
            &&& fs.len() == st.len()
            &&& forall|i: int|
                0 <= i < fs.len() ==> {
                    &&& st[i] is FileStart
                    &&& (#[trigger] fs[i]).path == current_path_spec(st[i]->FileStart_paths)
                    &&& fs[i].status == status_of_kind(st[i]->FileStart_kind)
                    &&& fs[i].old_path == (if st[i]->FileStart_kind is Renamed {
                        view_opt(st[i]->FileStart_paths.old_path)
                    } else {
                        None::<Seq<char>>
                    })
                }
        }),
    decreases events.len(),
{
    if events.len() > 0 {
        lemma_files_from_starts(events.drop_last(), cap);
    }
}

/// A renamed record carries an old path distinct from its path, and a
/// record of any other status carries none — provided every rename the
/// traversal reports has both of its sides, and they differ.
pub proof fn lemma_rename_records(events: Seq<DiffEvent>, cap: usize)
    requires
        forall|i: int|
            0 <= i < events.len() ==> ((#[trigger] events[i]) matches DiffEvent::FileStart {
                paths,
                kind,
            } ==> (kind is Renamed ==> paths.new_path is Some && paths.old_path is Some
                && view_opt(paths.new_path) != view_opt(paths.old_path))),
    ensures
        forall|i: int|
            0 <= i < diff_files_model(events, cap).len() ==> {
                let f = #[trigger] diff_files_model(events, cap)[i];
                &&& (f.status is Renamed ==> f.old_path is Some && f.old_path != Some(f.path))
                &&& (f.status !is Renamed ==> f.old_path is None)
            },
    decreases events.len(),
{
    lemma_files_from_starts(events, cap);
    lemma_start_events_members(events);
    assert forall|i: int| 0 <= i < diff_files_model(events, cap).len() implies {
        let f = #[trigger] diff_files_model(events, cap)[i];
        &&& (f.status is Renamed ==> f.old_path is Some && f.old_path != Some(f.path))
        &&& (f.status !is Renamed ==> f.old_path is None)
    } by {
        let f = diff_files_model(events, cap)[i];
        let ev = start_events(events)[i];
        assert(events.contains(ev));
        let j = choose|j: int| 0 <= j < events.len() && events[j] == ev;
        if f.status is Renamed {
            assert(ev->FileStart_kind is Renamed);
        }
    }
}

/// Every file-level event of a traversal is one of its events.
pub proof fn lemma_start_events_members(events: Seq<DiffEvent>)
    ensures
        forall|i: int|
            0 <= i < start_events(events).len() ==> events.contains(
                #[trigger] start_events(events)[i],
            ),
    decreases events.len(),
{
    if events.len() > 0 {
        lemma_start_events_members(events.drop_last());
        assert forall|i: int| 0 <= i < start_events(events).len() implies events.contains(
            start_events(events)[i],
        ) by {
            let pre = start_events(events.drop_last());
            if i < pre.len() {
                assert(events.drop_last().contains(pre[i]));
                let j = choose|j: int|
                    0 <= j < events.drop_last().len() && events.drop_last()[j] == pre[i];
                assert(events[j] == pre[i]);
            } else {
                assert(events[events.len() - 1] == start_events(events)[i]);
            }
        }
    }
}

/// A traversal whose file-level events all report additions or untracked
/// files yields only records with status `Added` — the shape of the diff
/// of an initial commit, and of untracked files in a working-tree diff.
pub proof fn lemma_untracked_reported_added(events: Seq<DiffEvent>, cap: usize)
    requires
        forall|i: int|
            0 <= i < events.len() ==> ((#[trigger] events[i]) matches DiffEvent::FileStart {
                paths,
                kind,
            } ==> kind is Added || kind is Untracked),
    ensures
        forall|i: int|
            0 <= i < diff_files_model(events, cap).len() ==> (#[trigger] diff_files_model(
                events,
                cap,
            )[i]).status is Added,
    decreases events.len(),
{
    lemma_files_from_starts(events, cap);
    lemma_start_events_members(events);
    assert forall|i: int|
        0 <= i < diff_files_model(events, cap).len() implies (#[trigger] diff_files_model(
        events,
        cap,
    )[i]).status is Added by {
        let ev = start_events(events)[i];
        assert(events.contains(ev));
        let j = choose|j: int| 0 <= j < events.len() && events[j] == ev;
    }
}

/// Relies on std::str::from_utf8: it succeeds exactly on valid UTF-8 and
/// returns the decoded view of those bytes.
#[verifier::external_body]
pub(crate) fn utf8_str(bytes: &[u8]) -> (r: Option<&str>)
    ensures
        r is Some <==> valid_utf8(bytes@),
        r matches Some(s) ==> s@ == decode_utf8(bytes@) && s.spec_bytes() == bytes@,
{
    std::str::from_utf8(bytes).ok()
}

/// Append a `+`, `-` or space origin marker to the patch buffer.
pub(crate) fn push_origin(patch: &mut String, origin: char)
    requires
        origin == '+' || origin == '-' || origin == ' ',
    ensures
        final(patch)@ == old(patch)@ + seq![origin],
{
    if origin == '+' {
        patch.append("+");
        proof {
            reveal_strlit("+");
            assert(("+")@ =~= seq!['+']);
        }
    } else if origin == '-' {
        patch.append("-");
        proof {
            reveal_strlit("-");
            assert(("-")@ =~= seq!['-']);
        }
    } else {
        patch.append(" ");
        proof {
            reveal_strlit(" ");
            assert((" ")@ =~= seq![' ']);
        }
    }
}

/// The path a delta is filed under.
fn current_path_of(paths: &DeltaPaths) -> (r: String)
    ensures
        r@ == current_path_spec(*paths),
{
    match &paths.new_path {
        Some(p) => p.clone(),
        None => match &paths.old_path {
            Some(p) => p.clone(),
            None => String::new(),
        },
    }
}

/// The reported status of a delta kind.
pub fn status_from_kind(kind: DeltaKind) -> (r: FileStatus)
    ensures
        r == status_of_kind(kind),
{
    match kind {
        DeltaKind::Added => FileStatus::Added,
        DeltaKind::Untracked => FileStatus::Added,
        DeltaKind::Deleted => FileStatus::Deleted,
        DeltaKind::Renamed => FileStatus::Renamed,
        DeltaKind::Other => FileStatus::Modified,
    }
}

/// Fold a diff traversal into its per-file records and totals.
///
/// The returned records are exactly the fold of the events under the
/// given byte cap; the totals agree with the records; no record carries
/// inline contents; and a record marked large has an empty patch.
pub fn parse_diff(events: &Vec<DiffEvent>, max_patch_size: usize) -> (r: DiffResult)
    ensures
        r.files@.map_values(|f: FileDiffInfo| f.model()) == diff_files_model(
            events@,
            max_patch_size,
        ),
        stats_consistent(r.files@, r.stats),
        no_inline_contents(r.files@),
        large_files_empty(r.files@),
{
    let n = events.len();
    let mut files: Vec<FileDiffInfo> = Vec::new();
    let mut i: usize = 0;
    while i < n
        invariant
            n == events@.len(),
            i <= n,
            files@.map_values(|f: FileDiffInfo| f.model()) == diff_files_model(
                events@.take(i as int),
                max_patch_size,
            ),
            sum_additions(files@) + sum_deletions(files@) <= i,
            no_inline_contents(files@),
            forall|k: int|
                0 <= k < files@.len() ==> ((#[trigger] files@[k]).is_large
                    ==> files@[k].patch@.len() == 0),
        decreases n - i,
    {
        let ghost pre_files = files@;
        let ghost pre_model = files@.map_values(|f: FileDiffInfo| f.model());
        match &events[i] {
            DiffEvent::FileStart { paths, kind } => {
                let rec = FileDiffInfo {
                    path: current_path_of(paths),
                    old_path: if matches!(kind, DeltaKind::Renamed) {
                        match &paths.old_path {
                            Some(p) => Some(p.clone()),
                            None => None,
                        }
                    } else {
                        None
                    },
                    status: status_from_kind(*kind),
                    additions: 0,
                    deletions: 0,
                    old_content: None,
                    new_content: None,
                    patch: String::new(),
                    is_large: false,
                };
                proof {
                    assert(rec.model() =~= fresh_file(*paths, *kind));
                    lemma_sum_push(pre_files, rec);
                }
                files.push(rec);
                proof {
                    assert(files@.map_values(|f: FileDiffInfo| f.model()) =~= pre_model.push(
                        rec.model(),
                    ));
                }
            },
            DiffEvent::Line { paths, origin, content } => {
                if files.len() > 0 {
                    let cur = current_path_of(paths);
                    let mut f = files.pop().unwrap();
                    let ghost old_f = f;
                    if f.path == cur {
                        proof {
                            lemma_sum_nonneg(pre_files.drop_last());
                            assert(sum_additions(pre_files) == sum_additions(
                                pre_files.drop_last(),
                            ) + old_f.additions);
                            assert(sum_deletions(pre_files) == sum_deletions(
                                pre_files.drop_last(),
                            ) + old_f.deletions);
                        }
                        if *origin == '+' {
                            f.additions = f.additions + 1;
                        } else if *origin == '-' {
                            f.deletions = f.deletions + 1;
                        }
                        if !f.is_large {
                            let is_marker = *origin == '+' || *origin == '-' || *origin == ' ';
                            if is_marker {
                                push_origin(&mut f.patch, *origin);
                            }
                            match utf8_str(content.as_slice()) {
                                Some(cs) => {
                                    f.patch.append(cs);
                                },
                                None => {},
                            }
                            proof {
                                assert(f.patch@ =~= old_f.patch@ + rendered_line(
                                    *origin,
                                    content@,
                                ));
                            }
                            if f.patch.as_str().len() > max_patch_size {
                                f.patch = String::new();
                                f.is_large = true;
                            }
                        }
                        proof {
                            assert(f.model() =~= line_step(
                                old_f.model(),
                                *origin,
                                content@,
                                max_patch_size,
                            ));
                            lemma_sum_push(pre_files.drop_last(), f);
                        }
                        files.push(f);
                        proof {
                            assert(files@.map_values(|g: FileDiffInfo| g.model()) =~= pre_model
                                .update(pre_model.len() - 1, f.model()));
                        }
                    } else {
                        files.push(f);
                        proof {
                            assert(files@ =~= pre_files);
                        }
                    }
                }
            },
        }
        proof {
            assert(events@.take(i + 1).drop_last() =~= events@.take(i as int));
            assert(events@.take(i + 1).last() == events@[i as int]);
        }
        i = i + 1;
    }
    proof {
        assert(events@.take(n as int) =~= events@);
        lemma_sum_nonneg(files@);
    }
    let total = compute_stats(&files);
    DiffResult { files, stats: total }
}

/// The totals over a list of file records.
pub fn compute_stats(files: &Vec<FileDiffInfo>) -> (r: DiffStats)
    requires
        sum_additions(files@) + sum_deletions(files@) <= usize::MAX,
    ensures
        stats_consistent(files@, r),
{
    let m = files.len();
    let mut adds: usize = 0;
    let mut dels: usize = 0;
    let mut j: usize = 0;
    proof {
        lemma_sum_nonneg(files@);
    }
    while j < m
        invariant
            m == files@.len(),
            j <= m,
            sum_additions(files@) + sum_deletions(files@) <= usize::MAX,
            adds == sum_additions(files@.take(j as int)),
            dels == sum_deletions(files@.take(j as int)),
        decreases m - j,
    {
        proof {
            lemma_sum_take_step(files@, j as int);
            lemma_sum_take_le(files@, j + 1);
            lemma_sum_nonneg(files@.take(j + 1));
        }
        adds = adds + files[j].additions;
        dels = dels + files[j].deletions;
        j = j + 1;
    }
    proof {
        assert(files@.take(m as int) =~= files@);
    }
    DiffStats { additions: adds, deletions: dels, files: m }
}

} // verus!
