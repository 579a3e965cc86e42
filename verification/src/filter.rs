use vstd::prelude::*;
use crate::strutil::{contains_seq, contains_substr};
use crate::timerange::TimeRange;
use crate::records::{RawCommit, RawCommitView, CommitRecord, record_view};

verus! {

/// The timestamp lies in the report's window, both bounds inclusive.
pub open spec fn in_time_range(t: i64, tr: TimeRange) -> bool {
    tr.since <= t <= tr.until
}

/// The author passes the optional filter: with no filter every author
/// passes; with one, exactly the authors that contain it as a literal,
/// case-sensitive substring.
pub open spec fn author_kept(author: Seq<char>, filter: Option<Seq<char>>) -> bool {
    match filter {
        Some(f) => contains_seq(author, f),
        None => true,
    }
}

/// The commit is kept by the filter stage: its timestamp lies in the window
/// and its author passes the optional filter.
pub open spec fn kept(c: RawCommitView, tr: TimeRange, filter: Option<Seq<char>>) -> bool {
    in_time_range(c.time, tr) && author_kept(c.author, filter)
}

/// Decides keep/drop for one commit: keep exactly when
/// `since <= time <= until` (a commit exactly at `until` is kept) and, if an
/// author filter is set, the author contains it as a substring.
pub fn commit_passes(time: i64, author: &str, tr: &TimeRange, filter: &Option<String>) -> (r:
    bool)
    ensures
        r == (in_time_range(time, *tr) && author_kept(author@, filter.deep_view())),
{
    if time < tr.since || time > tr.until {
        return false;
    }
    match filter {
        Some(f) => contains_substr(author, f.as_str()),
        None => true,
    }
}

/// Runs one commit through the filter stage: the record built from it where
/// it is kept, nothing where it is dropped. This is the per-commit step the
/// walker applies during the ancestry traversal, so dropped commits never
/// accumulate.
pub fn consider_commit(
    repo: &str,
    branch: &str,
    c: RawCommit,
    tr: &TimeRange,
    filter: &Option<String>,
) -> (r: Option<CommitRecord>)
    ensures
        kept(c.deep_view(), *tr, filter.deep_view()) ==> (r matches Some(rec) && rec.deep_view()
            == record_view(repo@, branch@, c.deep_view())),
        !kept(c.deep_view(), *tr, filter.deep_view()) ==> r is None,
{
    if commit_passes(c.time, c.author.as_str(), tr, filter) {
        Some(CommitRecord::new(repo.to_owned(), branch.to_owned(), c))
    } else {
        None
    }
}

} // verus!
