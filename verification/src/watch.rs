//! The change notifier's decision core: which debounced filesystem paths
//! become change events, and what those events hold.  The debouncing and
//! the background thread are the host's plumbing; every path it receives
//! goes through [`change_event_now`].

use vstd::prelude::*;
use vstd::string::StrSliceExecFns;
use crate::strutil::{contains_seq, contains_sub, starts_with_str};

verus! {

/// A coarse "something changed" notification: a fixed event type, the
/// changed path relative to the watched root, and a millisecond Unix
/// timestamp.
#[derive(Clone, Debug)]
pub struct FileChangeEvent {
    pub event_type: String,
    pub file: String,
    pub timestamp: i64,
}

/// The path of an event relative to the watched root: the root and its
/// separator removed when the root is a proper prefix, else the absolute
/// path unchanged.
pub open spec fn rel_path_spec(abs: Seq<char>, base: Seq<char>) -> Seq<char> {
    if base.len() < abs.len() && abs.subrange(0, base.len() as int) == base && abs[base.len() as int]
        == '/' {
        abs.subrange(base.len() as int + 1, abs.len() as int)
    } else {
        abs
    }
}

/// The watched path made relative to the root, as `rel_path_spec` gives
/// it.
fn rel_path(abs: &str, base: &str) -> (r: String)
    ensures
        r@ == rel_path_spec(abs@, base@),
{
    let n = abs.unicode_len();
    let bn = base.unicode_len();
    if bn < n && starts_with_str(abs, base) && abs.get_char(bn) == '/' {
        abs.substring_char(bn + 1, n).to_owned()
    } else {
        abs.to_owned()
    }
}

/// The event for one debounced path, or nothing: a path anywhere under
/// the repository's internal `.git` store is dropped, so object and
/// index churn never reaches the host.
pub fn change_event_for(abs_path: &str, base: &str, timestamp_ms: i64) -> (r: Option<
    FileChangeEvent,
>)
    ensures
        contains_seq(abs_path@, ".git"@) ==> r is None,
        !contains_seq(abs_path@, ".git"@) ==> (r matches Some(ev) && ev.event_type@ == "change"@
            && ev.file@ == rel_path_spec(abs_path@, base@) && ev.timestamp == timestamp_ms),
{
    if contains_sub(abs_path, ".git") {
        None
    } else {
        Some(
            FileChangeEvent {
                event_type: "change".to_owned(),
                file: rel_path(abs_path, base),
                timestamp: timestamp_ms,
            },
        )
    }
}

/// Relies on chrono's Utc::now: milliseconds since the Unix epoch; the
/// value depends on the clock, so nothing is assumed of it.
#[verifier::external_body]
fn now_unix_millis() -> i64 {
    chrono::Utc::now().timestamp_millis()
}

/// As [`change_event_for`], stamped with the current wall-clock time.
pub fn change_event_now(abs_path: &str, base: &str) -> (r: Option<FileChangeEvent>)
    ensures
        contains_seq(abs_path@, ".git"@) ==> r is None,
        !contains_seq(abs_path@, ".git"@) ==> (r matches Some(ev) && ev.event_type@ == "change"@
            && ev.file@ == rel_path_spec(abs_path@, base@)),
{
    let now = now_unix_millis();
    change_event_for(abs_path, base, now)
}

} // verus!
