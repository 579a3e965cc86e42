use vstd::prelude::*;
use crate::records::{RawCommit, RawCommitView, CommitRecord, RecordView, record_view,
    branch_name_view};
use crate::timerange::TimeRange;
use crate::filter::{kept, in_time_range, consider_commit};
use crate::aggregate::{sort_by_date, aggregate, lemma_sort_by_date_contains};
use crate::render::{all_renderable, flat_output, daily_output, render};
use crate::dates::renderable;
use crate::errors::ReportError;

verus! {

/// One local branch as the walker saw it: its name, where one could be
/// resolved, and every commit reachable from its tip, in walk order.
pub struct BranchCommits {
    pub name: Option<String>,
    pub commits: Vec<RawCommit>,
}

/// Mathematical model of a walked branch.
pub struct BranchView {
    pub name: Option<Seq<char>>,
    pub commits: Seq<RawCommitView>,
}

impl DeepView for BranchCommits {
    type V = BranchView;

    open spec fn deep_view(&self) -> BranchView {
        BranchView { name: self.name.deep_view(), commits: self.commits.deep_view() }
    }
}

/// One repository as the walker saw it: its path and its local branches, in
/// enumeration order.
pub struct RepoCommits {
    pub path: String,
    pub branches: Vec<BranchCommits>,
}

/// Mathematical model of a walked repository.
pub struct RepoView {
    pub path: Seq<char>,
    pub branches: Seq<BranchView>,
}

impl DeepView for RepoCommits {
    type V = RepoView;

    open spec fn deep_view(&self) -> RepoView {
        RepoView { path: self.path@, branches: self.branches.deep_view() }
    }
}

/// The records one branch contributes: its commits in walk order, each run
/// through the filter stage, the kept ones turned into records.
pub open spec fn branch_records(
    repo: Seq<char>,
    branch: Seq<char>,
    commits: Seq<RawCommitView>,
    tr: TimeRange,
    filter: Option<Seq<char>>,
) -> Seq<RecordView>
    decreases commits.len(),
{
    if commits.len() == 0 {
        Seq::empty()
    } else {
        branch_records(repo, branch, commits.drop_last(), tr, filter) + (if kept(
            commits.last(),
            tr,
            filter,
        ) {
            seq![record_view(repo, branch, commits.last())]
        } else {
            Seq::empty()
        })
    }
}

/// The records one repository contributes: its branches in enumeration
/// order, each contributing its kept commits. A commit reachable from two
/// branches is contributed twice, once per branch.
pub open spec fn repo_records(
    path: Seq<char>,
    branches: Seq<BranchView>,
    tr: TimeRange,
    filter: Option<Seq<char>>,
) -> Seq<RecordView>
    decreases branches.len(),
{
    if branches.len() == 0 {
        Seq::empty()
    } else {
        repo_records(path, branches.drop_last(), tr, filter) + branch_records(
            path,
            branch_name_view(branches.last().name),
            branches.last().commits,
            tr,
            filter,
        )
    }
}

/// The merged, still unsorted collection: every repository's records, in
/// repository processing order.
pub open spec fn all_records(
    repos: Seq<RepoView>,
    tr: TimeRange,
    filter: Option<Seq<char>>,
) -> Seq<RecordView>
    decreases repos.len(),
{
    if repos.len() == 0 {
        Seq::empty()
    } else {
        all_records(repos.drop_last(), tr, filter) + repo_records(
            repos.last().path,
            repos.last().branches,
            tr,
            filter,
        )
    }
}

/// Walks one repository's branches and commits through the filter stage,
/// yielding exactly the kept records in walk order.
pub fn list_commits(repo: RepoCommits, tr: &TimeRange, filter: &Option<String>) -> (r: Vec<
    CommitRecord,
>)
    ensures
        r.deep_view() == repo_records(
            repo.path@,
            repo.branches.deep_view(),
            *tr,
            filter.deep_view(),
        ),
{
    let RepoCommits { path, branches } = repo;
    let mut branches = branches;
    let ghost bdv: Seq<BranchView> = branches.deep_view();
    let ghost fdv: Option<Seq<char>> = filter.deep_view();
    let mut out: Vec<CommitRecord> = Vec::new();
    proof {
        assert(branches.deep_view() =~= bdv.skip(0));
        assert(out.deep_view() =~= repo_records(path@, bdv.take(0), *tr, fdv));
    }
    while branches.len() > 0
        invariant
            bdv == repo.branches.deep_view(),
            path == repo.path,
            branches@.len() <= bdv.len(),
            branches.deep_view() =~= bdv.skip(bdv.len() - branches@.len()),
            out.deep_view() =~= repo_records(path@, bdv.take(bdv.len() - branches@.len()), *tr, fdv),
            fdv == filter.deep_view(),
        decreases branches@.len(),
    {
        let ghost k: int = bdv.len() - branches@.len();
        let ghost old_b: Seq<BranchView> = branches.deep_view();
        let b = branches.remove(0);
        proof {
            assert(b.deep_view() == old_b[0]);
            assert(old_b[0] == bdv[k]);
            assert(branches.deep_view() =~= bdv.skip(k + 1)) by {
                assert(forall|i: int|
                    0 <= i < branches@.len() ==> branches.deep_view()[i] == old_b[i + 1]);
            }
        }
        let BranchCommits { name, commits } = b;
        let bname: String = crate::records::branch_display_name(name);
        proof {
            assert(bname@ == branch_name_view(bdv[k].name));
        }
        let mut commits = commits;
        let ghost cdv: Seq<RawCommitView> = commits.deep_view();
        proof {
            assert(cdv == bdv[k].commits);
            assert(commits.deep_view() =~= cdv.skip(0));
            assert(branch_records(path@, bname@, cdv.take(0), *tr, fdv) =~= Seq::<
                RecordView,
            >::empty());
        }
        while commits.len() > 0
            invariant
                commits@.len() <= cdv.len(),
                commits.deep_view() =~= cdv.skip(cdv.len() - commits@.len()),
                out.deep_view() =~= repo_records(path@, bdv.take(k), *tr, fdv) + branch_records(
                    path@,
                    bname@,
                    cdv.take(cdv.len() - commits@.len()),
                    *tr,
                    fdv,
                ),
                fdv == filter.deep_view(),
                0 <= k <= bdv.len(),
            decreases commits@.len(),
        {
            let ghost m: int = cdv.len() - commits@.len();
            let ghost old_c: Seq<RawCommitView> = commits.deep_view();
            let c = commits.remove(0);
            proof {
                assert(c.deep_view() == old_c[0]);
                assert(old_c[0] == cdv[m]);
                assert(commits.deep_view() =~= cdv.skip(m + 1)) by {
                    assert(forall|i: int|
                        0 <= i < commits@.len() ==> commits.deep_view()[i] == old_c[i + 1]);
                }
            }
            let ghost pre_out: Seq<RecordView> = out.deep_view();
            match consider_commit(path.as_str(), bname.as_str(), c, tr, filter) {
                Some(rec) => {
                    out.push(rec);
                    proof {
                        assert(out.deep_view() =~= pre_out.push(rec.deep_view())) by {
                            assert(forall|i: int|
                                0 <= i < out@.len() ==> out.deep_view()[i]
                                    == out@[i].deep_view());
                        }
                    }
                },
                None => {},
            }
            proof {
                let t = cdv.take(m + 1);
                assert(t.drop_last() =~= cdv.take(m));
                assert(t.last() == cdv[m]);
                assert(out.deep_view() =~= repo_records(path@, bdv.take(k), *tr, fdv)
                    + branch_records(path@, bname@, cdv.take(m + 1), *tr, fdv));
            }
        }
        proof {
            assert(cdv.take(cdv.len() as int) =~= cdv);
            let t = bdv.take(k + 1);
            assert(t.drop_last() =~= bdv.take(k));
            assert(t.last() == bdv[k]);
            assert(out.deep_view() =~= repo_records(path@, bdv.take(k + 1), *tr, fdv));
        }
    }
    proof {
        assert(bdv.take(bdv.len() as int) =~= bdv);
    }
    out
}

/// Every kept commit of the branch can be rendered: its timestamp lies in
/// the renderer's (enormous) supported range.
pub open spec fn branch_kept_renderable(
    commits: Seq<RawCommitView>,
    tr: TimeRange,
    filter: Option<Seq<char>>,
) -> bool {
    forall|k: int|
        0 <= k < commits.len() && kept(#[trigger] commits[k], tr, filter) ==> renderable(
            commits[k].time,
        )
}

/// Every kept commit of the repository can be rendered.
pub open spec fn repo_kept_renderable(
    branches: Seq<BranchView>,
    tr: TimeRange,
    filter: Option<Seq<char>>,
) -> bool {
    forall|j: int|
        0 <= j < branches.len() ==> branch_kept_renderable(
            #[trigger] branches[j].commits,
            tr,
            filter,
        )
}

/// Every kept commit of every requested repository can be rendered.
pub open spec fn kept_renderable(
    repos: Seq<RepoView>,
    tr: TimeRange,
    filter: Option<Seq<char>>,
) -> bool {
    forall|i: int|
        0 <= i < repos.len() ==> repo_kept_renderable(#[trigger] repos[i].branches, tr, filter)
}

proof fn lemma_branch_records_in_window(
    repo: Seq<char>,
    branch: Seq<char>,
    commits: Seq<RawCommitView>,
    tr: TimeRange,
    filter: Option<Seq<char>>,
)
    ensures
        forall|j: int|
            0 <= j < branch_records(repo, branch, commits, tr, filter).len() ==> in_time_range(
                #[trigger] branch_records(repo, branch, commits, tr, filter)[j].date,
                tr,
            ),
        forall|j: int|
            0 <= j < branch_records(repo, branch, commits, tr, filter).len()
                && branch_kept_renderable(commits, tr, filter) ==> renderable(
                #[trigger] branch_records(repo, branch, commits, tr, filter)[j].date,
            ),
    decreases commits.len(),
{
    if commits.len() > 0 {
        let d = commits.drop_last();
        lemma_branch_records_in_window(repo, branch, d, tr, filter);
        assert(branch_kept_renderable(commits, tr, filter) ==> branch_kept_renderable(
            d,
            tr,
            filter,
        )) by {
            assert(forall|k: int| 0 <= k < d.len() ==> d[k] == commits[k]);
        }
        let br = branch_records(repo, branch, commits, tr, filter);
        let p = branch_records(repo, branch, d, tr, filter);
        assert(commits[commits.len() - 1] == commits.last());
        assert forall|j: int| 0 <= j < br.len() implies in_time_range(br[j].date, tr) && (
        branch_kept_renderable(commits, tr, filter) ==> renderable(br[j].date)) by {
            if j < p.len() {
                assert(br[j] == p[j]);
            } else {
                assert(kept(commits.last(), tr, filter));
                assert(br[j] == record_view(repo, branch, commits.last()));
                assert(br[j].date == commits.last().time);
            }
        }
    }
}

proof fn lemma_repo_records_in_window(
    path: Seq<char>,
    branches: Seq<BranchView>,
    tr: TimeRange,
    filter: Option<Seq<char>>,
)
    ensures
        forall|j: int|
            0 <= j < repo_records(path, branches, tr, filter).len() ==> in_time_range(
                #[trigger] repo_records(path, branches, tr, filter)[j].date,
                tr,
            ),
        forall|j: int|
            0 <= j < repo_records(path, branches, tr, filter).len() && repo_kept_renderable(
                branches,
                tr,
                filter,
            ) ==> renderable(#[trigger] repo_records(path, branches, tr, filter)[j].date),
    decreases branches.len(),
{
    if branches.len() > 0 {
        let d = branches.drop_last();
        lemma_repo_records_in_window(path, d, tr, filter);
        assert(repo_kept_renderable(branches, tr, filter) ==> repo_kept_renderable(d, tr, filter))
            by {
            assert(forall|k: int| 0 <= k < d.len() ==> d[k] == branches[k]);
        }
        lemma_branch_records_in_window(
            path,
            branch_name_view(branches.last().name),
            branches.last().commits,
            tr,
            filter,
        );
        assert(branches[branches.len() - 1] == branches.last());
        let rr = repo_records(path, branches, tr, filter);
        let p = repo_records(path, d, tr, filter);
        let b = branch_records(
            path,
            branch_name_view(branches.last().name),
            branches.last().commits,
            tr,
            filter,
        );
        assert forall|j: int| 0 <= j < rr.len() implies in_time_range(rr[j].date, tr) && (
        repo_kept_renderable(branches, tr, filter) ==> renderable(rr[j].date)) by {
            if j < p.len() {
                assert(rr[j] == p[j]);
            } else {
                assert(rr[j] == b[j - p.len()]);
                assert(repo_kept_renderable(branches, tr, filter) ==> branch_kept_renderable(
                    branches.last().commits,
                    tr,
                    filter,
                ));
            }
        }
    }
}

/// Every record of the merged collection lies inside the report's time
/// window, both bounds inclusive: a commit outside `[since, until]` never
/// appears in the output. And where every kept commit is renderable, so is
/// every merged record.
pub proof fn lemma_all_records_in_window(
    repos: Seq<RepoView>,
    tr: TimeRange,
    filter: Option<Seq<char>>,
)
    ensures
        forall|j: int|
            0 <= j < all_records(repos, tr, filter).len() ==> in_time_range(
                #[trigger] all_records(repos, tr, filter)[j].date,
                tr,
            ),
        kept_renderable(repos, tr, filter) ==> all_renderable(all_records(repos, tr, filter)),
    decreases repos.len(),
{
    if repos.len() > 0 {
        let d = repos.drop_last();
        lemma_all_records_in_window(d, tr, filter);
        assert(kept_renderable(repos, tr, filter) ==> kept_renderable(d, tr, filter)) by {
            assert(forall|k: int| 0 <= k < d.len() ==> d[k] == repos[k]);
        }
        lemma_repo_records_in_window(repos.last().path, repos.last().branches, tr, filter);
        assert(repos[repos.len() - 1] == repos.last());
        let ar = all_records(repos, tr, filter);
        let p = all_records(d, tr, filter);
        let rr = repo_records(repos.last().path, repos.last().branches, tr, filter);
        assert forall|j: int| 0 <= j < ar.len() implies in_time_range(ar[j].date, tr) && (
        kept_renderable(repos, tr, filter) ==> renderable(ar[j].date)) by {
            if j < p.len() {
                assert(ar[j] == p[j]);
            } else {
                assert(ar[j] == rr[j - p.len()]);
                assert(kept_renderable(repos, tr, filter) ==> repo_kept_renderable(
                    repos.last().branches,
                    tr,
                    filter,
                ));
            }
        }
        assert(kept_renderable(repos, tr, filter) ==> all_renderable(ar));
    }
}

/// Every commit that passes the filter appears in its branch's records: a
/// commit with `since <= timestamp <= until` (a commit exactly at `until`
/// included) whose author passes the filter is never dropped.
pub proof fn lemma_branch_records_complete(
    repo: Seq<char>,
    branch: Seq<char>,
    commits: Seq<RawCommitView>,
    tr: TimeRange,
    filter: Option<Seq<char>>,
    k: int,
)
    requires
        0 <= k < commits.len(),
        kept(commits[k], tr, filter),
    ensures
        branch_records(repo, branch, commits, tr, filter).contains(
            record_view(repo, branch, commits[k]),
        ),
    decreases commits.len(),
{
    let br = branch_records(repo, branch, commits, tr, filter);
    let d = commits.drop_last();
    if k == commits.len() - 1 {
        assert(commits[k] == commits.last());
        let p = branch_records(repo, branch, d, tr, filter);
        assert(br[p.len() as int] == record_view(repo, branch, commits.last()));
    } else {
        lemma_branch_records_complete(repo, branch, d, tr, filter, k);
        let p = branch_records(repo, branch, d, tr, filter);
        let i = choose|i: int| 0 <= i < p.len() && p[i] == record_view(repo, branch, d[k]);
        assert(d[k] == commits[k]);
        assert(br[i] == p[i]);
    }
}

/// Every commit of a repository that passes the filter appears among that
/// repository's records.
pub proof fn lemma_repo_records_complete(
    path: Seq<char>,
    branches: Seq<BranchView>,
    tr: TimeRange,
    filter: Option<Seq<char>>,
    j: int,
    k: int,
)
    requires
        0 <= j < branches.len(),
        0 <= k < branches[j].commits.len(),
        kept(branches[j].commits[k], tr, filter),
    ensures
        repo_records(path, branches, tr, filter).contains(
            record_view(path, branch_name_view(branches[j].name), branches[j].commits[k]),
        ),
    decreases branches.len(),
{
    let rr = repo_records(path, branches, tr, filter);
    let d = branches.drop_last();
    let p = repo_records(path, d, tr, filter);
    if j == branches.len() - 1 {
        assert(branches[j] == branches.last());
        lemma_branch_records_complete(
            path,
            branch_name_view(branches.last().name),
            branches.last().commits,
            tr,
            filter,
            k,
        );
        let b = branch_records(
            path,
            branch_name_view(branches.last().name),
            branches.last().commits,
            tr,
            filter,
        );
        let x = record_view(path, branch_name_view(branches[j].name), branches[j].commits[k]);
        let i = choose|i: int| 0 <= i < b.len() && b[i] == x;
        assert(rr[p.len() + i] == b[i]);
    } else {
        assert(d[j] == branches[j]);
        lemma_repo_records_complete(path, d, tr, filter, j, k);
        let x = record_view(path, branch_name_view(d[j].name), d[j].commits[k]);
        let i = choose|i: int| 0 <= i < p.len() && p[i] == x;
        assert(rr[i] == p[i]);
    }
}

/// Every commit of every requested repository that passes the filter
/// appears in the merged collection: together with
/// `lemma_all_records_in_window`, a commit appears in the output exactly
/// when `since <= timestamp <= until` and its author passes the filter.
pub proof fn lemma_all_records_complete(
    repos: Seq<RepoView>,
    tr: TimeRange,
    filter: Option<Seq<char>>,
    i: int,
    j: int,
    k: int,
)
    requires
        0 <= i < repos.len(),
        0 <= j < repos[i].branches.len(),
        0 <= k < repos[i].branches[j].commits.len(),
        kept(repos[i].branches[j].commits[k], tr, filter),
    ensures
        all_records(repos, tr, filter).contains(
            record_view(
                repos[i].path,
                branch_name_view(repos[i].branches[j].name),
                repos[i].branches[j].commits[k],
            ),
        ),
    decreases repos.len(),
{
    let ar = all_records(repos, tr, filter);
    let d = repos.drop_last();
    let p = all_records(d, tr, filter);
    if i == repos.len() - 1 {
        assert(repos[i] == repos.last());
        lemma_repo_records_complete(repos.last().path, repos.last().branches, tr, filter, j, k);
        let rr = repo_records(repos.last().path, repos.last().branches, tr, filter);
        let x = record_view(
            repos[i].path,
            branch_name_view(repos[i].branches[j].name),
            repos[i].branches[j].commits[k],
        );
        let m = choose|m: int| 0 <= m < rr.len() && rr[m] == x;
        assert(ar[p.len() + m] == rr[m]);
    } else {
        assert(d[i] == repos[i]);
        lemma_all_records_complete(d, tr, filter, i, j, k);
        let x = record_view(
            d[i].path,
            branch_name_view(d[i].branches[j].name),
            d[i].branches[j].commits[k],
        );
        let m = choose|m: int| 0 <= m < p.len() && p[m] == x;
        assert(ar[m] == p[m]);
    }
}

proof fn lemma_sorted_all_renderable(s: Seq<RecordView>)
    requires
        all_renderable(s),
    ensures
        all_renderable(sort_by_date(s)),
{
    assert forall|i: int|
        0 <= i < sort_by_date(s).len() implies renderable(
        #[trigger] sort_by_date(s)[i].date,
    ) by {
        let x = sort_by_date(s)[i];
        assert(sort_by_date(s).contains(x));
        lemma_sort_by_date_contains(s, x);
        let j = choose|j: int| 0 <= j < s.len() && s[j] == x;
        assert(renderable(s[j].date));
    }
}

/// The requested render mode is one the presenter knows.
pub open spec fn report_mode_known(mode: Seq<char>) -> bool {
    mode == "flat"@ || mode == "daily"@
}

/// The full report text for a known mode: the merged records of every
/// repository, sorted by timestamp ascending with ties in production order,
/// rendered in the requested layout.
pub open spec fn report_text(
    repos: Seq<RepoView>,
    tr: TimeRange,
    filter: Option<Seq<char>>,
    mode: Seq<char>,
) -> Seq<char> {
    let sorted = sort_by_date(all_records(repos, tr, filter));
    if mode == "flat"@ {
        flat_output(sorted)
    } else {
        daily_output(sorted)
    }
}

/// What a run of the report pipeline returns: for a known mode, exactly the
/// report text; for any other mode, `UnknownFormatError` carrying the mode
/// string, with no output. The result is a function of the inputs alone.
pub open spec fn report_post(
    repos: Seq<RepoView>,
    tr: TimeRange,
    filter: Option<Seq<char>>,
    mode: Seq<char>,
    r: Result<String, ReportError>,
) -> bool {
    match r {
        Ok(out) => report_mode_known(mode) && out@ == report_text(repos, tr, filter, mode),
        Err(e) => !report_mode_known(mode) && (e matches ReportError::UnknownFormat(m) && m@
            == mode),
    }
}

/// Runs the whole pipeline on walked repository data: filter, merge, sort,
/// render.
pub fn run_report(
    repos: Vec<RepoCommits>,
    tr: &TimeRange,
    filter: &Option<String>,
    mode: &str,
) -> (r: Result<String, ReportError>)
    requires
        kept_renderable(repos.deep_view(), *tr, filter.deep_view()),
    ensures
        report_post(repos.deep_view(), *tr, filter.deep_view(), mode@, r),
{
    let ghost rdv: Seq<RepoView> = repos.deep_view();
    let ghost fdv: Option<Seq<char>> = filter.deep_view();
    let collected = collect_all(repos, tr, filter);
    let sorted = aggregate(collected);
    proof {
        lemma_all_records_in_window(rdv, *tr, fdv);
        lemma_sorted_all_renderable(all_records(rdv, *tr, fdv));
    }
    render(&sorted, mode)
}

/// Running the pipeline twice on the same repository state with identical
/// arguments gives identical results: the same output text, or the same
/// error.
pub proof fn lemma_report_idempotent(
    repos: Seq<RepoView>,
    tr: TimeRange,
    filter: Option<Seq<char>>,
    mode: Seq<char>,
    r1: Result<String, ReportError>,
    r2: Result<String, ReportError>,
)
    requires
        report_post(repos, tr, filter, mode, r1),
        report_post(repos, tr, filter, mode, r2),
    ensures
        r1 is Ok <==> r2 is Ok,
        match (r1, r2) {
            (Ok(a), Ok(b)) => a@ == b@,
            (Err(a), Err(b)) => a matches ReportError::UnknownFormat(m1) && (b matches
                ReportError::UnknownFormat(m2) && m1@ == m2@),
            _ => true,
        },
{
}

/// Merges the kept records of every requested repository, in repository
/// processing order, into one collection.
pub fn collect_all(repos: Vec<RepoCommits>, tr: &TimeRange, filter: &Option<String>) -> (r: Vec<
    CommitRecord,
>)
    ensures
        r.deep_view() == all_records(repos.deep_view(), *tr, filter.deep_view()),
{
    let ghost rdv: Seq<RepoView> = repos.deep_view();
    let ghost fdv: Option<Seq<char>> = filter.deep_view();
    let mut repos = repos;
    let mut out: Vec<CommitRecord> = Vec::new();
    proof {
        assert(repos.deep_view() =~= rdv.skip(0));
        assert(out.deep_view() =~= all_records(rdv.take(0), *tr, fdv));
    }
    while repos.len() > 0
        invariant
            repos@.len() <= rdv.len(),
            repos.deep_view() =~= rdv.skip(rdv.len() - repos@.len()),
            out.deep_view() =~= all_records(rdv.take(rdv.len() - repos@.len()), *tr, fdv),
            fdv == filter.deep_view(),
        decreases repos@.len(),
    {
        let ghost k: int = rdv.len() - repos@.len();
        let ghost old_r: Seq<RepoView> = repos.deep_view();
        let repo = repos.remove(0);
        proof {
            assert(repo.deep_view() == old_r[0]);
            assert(old_r[0] == rdv[k]);
            assert(repos.deep_view() =~= rdv.skip(k + 1)) by {
                assert(forall|i: int|
                    0 <= i < repos@.len() ==> repos.deep_view()[i] == old_r[i + 1]);
            }
        }
        let ghost pre_out: Seq<RecordView> = out.deep_view();
        let mut part = list_commits(repo, tr, filter);
        let ghost part_dv: Seq<RecordView> = part.deep_view();
        out.append(&mut part);
        proof {
            assert(out.deep_view() =~= pre_out + part_dv) by {
                assert(forall|i: int|
                    0 <= i < out@.len() ==> out.deep_view()[i] == out@[i].deep_view());
            }
            let t = rdv.take(k + 1);
            assert(t.drop_last() =~= rdv.take(k));
            assert(t.last() == rdv[k]);
            assert(out.deep_view() =~= all_records(rdv.take(k + 1), *tr, fdv));
        }
    }
    proof {
        assert(rdv.take(rdv.len() as int) =~= rdv);
    }
    out
}

} // verus!
