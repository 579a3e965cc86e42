use vstd::prelude::*;

verus! {

/// Raw data of one commit, as the repository walker hands it over: plain
/// values only, with the summary and the full message still optional.
pub struct RawCommit {
    /// Content-derived hash identifying the commit.
    pub id: String,
    /// Author identifier, e.g. `"Name <email>"`.
    pub author: String,
    /// First line of the commit message, if the commit has one.
    pub summary: Option<String>,
    /// Full commit message, if the commit has one.
    pub message: Option<String>,
    /// Commit timestamp: signed seconds since the epoch, as recorded by the
    /// commit itself.
    pub time: i64,
}

/// Mathematical model of a raw commit.
pub struct RawCommitView {
    pub id: Seq<char>,
    pub author: Seq<char>,
    pub summary: Option<Seq<char>>,
    pub message: Option<Seq<char>>,
    pub time: i64,
}

impl DeepView for RawCommit {
    type V = RawCommitView;

    open spec fn deep_view(&self) -> RawCommitView {
        RawCommitView {
            id: self.id@,
            author: self.author@,
            summary: self.summary.deep_view(),
            message: self.message.deep_view(),
            time: self.time,
        }
    }
}

/// One entry of the final report: a (repository, branch, commit) triple that
/// passed filtering, with every field resolved to a definite value.
pub struct CommitRecord {
    pub message: String,
    pub summary: String,
    pub author: String,
    pub commit: String,
    pub branch: String,
    pub repo: String,
    pub date: i64,
}

/// Mathematical model of a report entry.
pub struct RecordView {
    pub message: Seq<char>,
    pub summary: Seq<char>,
    pub author: Seq<char>,
    pub commit: Seq<char>,
    pub branch: Seq<char>,
    pub repo: Seq<char>,
    pub date: i64,
}

impl DeepView for CommitRecord {
    type V = RecordView;

    open spec fn deep_view(&self) -> RecordView {
        RecordView {
            message: self.message@,
            summary: self.summary@,
            author: self.author@,
            commit: self.commit@,
            branch: self.branch@,
            repo: self.repo@,
            date: self.date,
        }
    }
}

/// The displayed name of a branch: its own name where it has one, the
/// sentinel `"No branch"` where the name could not be resolved.
pub open spec fn branch_name_view(name: Option<Seq<char>>) -> Seq<char> {
    match name {
        Some(n) => n,
        None => "No branch"@,
    }
}

/// The record built from one raw commit: sentinels `"No summary"` and
/// `"No message"` stand in for an absent summary or message.
pub open spec fn record_view(repo: Seq<char>, branch: Seq<char>, c: RawCommitView) -> RecordView {
    RecordView {
        message: match c.message {
            Some(m) => m,
            None => "No message"@,
        },
        summary: match c.summary {
            Some(s) => s,
            None => "No summary"@,
        },
        author: c.author,
        commit: c.id,
        branch: branch,
        repo: repo,
        date: c.time,
    }
}

/// Resolves an optional branch name to its displayed form.
pub fn branch_display_name(name: Option<String>) -> (r: String)
    ensures
        r@ == branch_name_view(name.deep_view()),
{
    match name {
        Some(n) => n,
        None => "No branch".to_owned(),
    }
}

impl CommitRecord {
    /// Builds the report entry for one commit, resolving absent fields to
    /// their sentinels at this construction boundary.
    pub fn new(repo: String, branch: String, c: RawCommit) -> (r: CommitRecord)
        ensures
            r.deep_view() == record_view(repo@, branch@, c.deep_view()),
    {
        CommitRecord {
            summary: match c.summary {
                Some(s) => s,
                None => "No summary".to_owned(),
            },
            message: match c.message {
                Some(m) => m,
                None => "No message".to_owned(),
            },
            author: c.author,
            commit: c.id,
            date: c.time,
            repo: repo,
            branch: branch,
        }
    }
}

} // verus!
