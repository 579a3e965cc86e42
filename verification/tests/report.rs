use commit_report::errors::ReportError;
use commit_report::filter::commit_passes;
use commit_report::pipeline::{run_report, BranchCommits, RepoCommits};
use commit_report::records::{CommitRecord, RawCommit};
use commit_report::timerange::{parse_lenient, parse_time_range, TimeRange};

fn raw(id: &str, author: &str, summary: &str, time: i64) -> RawCommit {
    RawCommit {
        id: id.to_string(),
        author: author.to_string(),
        summary: Some(summary.to_string()),
        message: Some(format!("{}\n\nbody", summary)),
        time,
    }
}

fn one_branch_repo(path: &str, branch: &str, commits: Vec<RawCommit>) -> RepoCommits {
    RepoCommits {
        path: path.to_string(),
        branches: vec![BranchCommits {
            name: Some(branch.to_string()),
            commits,
        }],
    }
}

fn wide_range() -> TimeRange {
    TimeRange {
        since: 0,
        until: i64::MAX,
    }
}

#[test]
fn parse_date_only_is_midnight_utc() {
    let tr = parse_time_range(Some("2024-01-15"), None).unwrap();
    assert_eq!(tr.since, 1705276800);
    assert_eq!(tr.until, i64::MAX);
}

#[test]
fn parse_rfc3339_is_exact_instant() {
    assert_eq!(parse_lenient("2024-01-15T10:30:00Z").unwrap(), 1705314600);
}

#[test]
fn parse_rfc3339_with_offset() {
    // 10:30:00+02:00 is 08:30:00 UTC.
    assert_eq!(
        parse_lenient("2024-01-15T10:30:00+02:00").unwrap(),
        1705314600 - 2 * 3600
    );
}

#[test]
fn parse_invalid_date_fails() {
    match parse_lenient("not-a-date") {
        Err(ReportError::InvalidDateFormat(s)) => assert_eq!(s, "not-a-date"),
        _ => panic!("expected InvalidDateFormat"),
    }
}

#[test]
fn parse_time_range_defaults() {
    let tr = parse_time_range(None, None).unwrap();
    assert_eq!(tr.since, 0);
    assert_eq!(tr.until, i64::MAX);
}

#[test]
fn parse_time_range_reports_first_bad_bound() {
    match parse_time_range(Some("bogus"), Some("2024-01-15")) {
        Err(ReportError::InvalidDateFormat(s)) => assert_eq!(s, "bogus"),
        _ => panic!("expected InvalidDateFormat"),
    }
}

#[test]
fn author_filter_substrings() {
    let tr = wide_range();
    let author = "Alice <a@x.com>";
    assert!(commit_passes(10, author, &tr, &Some("Alice".to_string())));
    assert!(commit_passes(10, author, &tr, &Some("a@x.com".to_string())));
    assert!(commit_passes(10, author, &tr, &Some(String::new())));
    assert!(commit_passes(10, author, &tr, &None));
    assert!(!commit_passes(10, author, &tr, &Some("Bob".to_string())));
}

#[test]
fn time_window_bounds_inclusive() {
    let tr = TimeRange {
        since: 100,
        until: 200,
    };
    assert!(commit_passes(100, "a", &tr, &None));
    assert!(commit_passes(200, "a", &tr, &None));
    assert!(!commit_passes(99, "a", &tr, &None));
    assert!(!commit_passes(201, "a", &tr, &None));
}

#[test]
fn inverted_range_keeps_nothing() {
    let tr = TimeRange {
        since: 200,
        until: 100,
    };
    assert!(!commit_passes(150, "a", &tr, &None));
    assert!(!commit_passes(100, "a", &tr, &None));
    assert!(!commit_passes(200, "a", &tr, &None));
}

#[test]
fn flat_two_repos_interleaved() {
    // Two repositories with interleaved timestamps T1 < T2 < T3 < T4: the
    // flat output has exactly four tab-separated lines in global time order.
    let r1 = one_branch_repo("/repo/a", "main", vec![raw("c1", "A <a@x>", "first", 1000), raw(
        "c3", "A <a@x>", "third", 3000,
    )]);
    let r2 = one_branch_repo("/repo/b", "dev", vec![raw("c2", "B <b@y>", "second", 2000), raw(
        "c4", "B <b@y>", "fourth", 4000,
    )]);
    let out = run_report(vec![r1, r2], &wide_range(), &None, "flat").unwrap();
    let expected = "1970-01-01 00:16:40\t/repo/a\tmain\tc1\tfirst\tA <a@x>\n\
                    1970-01-01 00:33:20\t/repo/b\tdev\tc2\tsecond\tB <b@y>\n\
                    1970-01-01 00:50:00\t/repo/a\tmain\tc3\tthird\tA <a@x>\n\
                    1970-01-01 01:06:40\t/repo/b\tdev\tc4\tfourth\tB <b@y>\n";
    assert_eq!(out, expected);
    let lines: Vec<&str> = out.lines().collect();
    assert_eq!(lines.len(), 4);
    for line in &lines {
        assert_eq!(line.split('\t').count(), 6);
    }
}

#[test]
fn flat_output_sorted_ascending() {
    let r1 = one_branch_repo("/r", "main", vec![
        raw("c1", "A", "x", 4000),
        raw("c2", "A", "y", 1000),
        raw("c3", "A", "z", 3000),
    ]);
    let out = run_report(vec![r1], &wide_range(), &None, "flat").unwrap();
    let stamps: Vec<String> = out
        .lines()
        .map(|l| l.split('\t').next().unwrap().to_string())
        .collect();
    let mut sorted = stamps.clone();
    sorted.sort();
    assert_eq!(stamps, sorted);
}

#[test]
fn daily_groups_by_calendar_date() {
    // Commits on two calendar dates give two header lines, each followed
    // only by that date's commits, in timestamp order.
    let r = one_branch_repo("/r", "main", vec![
        raw("c1", "A", "early", 1000),
        raw("c2", "A", "late", 90000),
    ]);
    let out = run_report(vec![r], &wide_range(), &None, "daily").unwrap();
    let expected = "1970-01-01\n\
                    \t\t00:16:40\t/r\tmain\tearly\tA\n\
                    1970-01-02\n\
                    \t\t01:00:00\t/r\tmain\tlate\tA\n";
    assert_eq!(out, expected);
}

#[test]
fn daily_one_header_per_day_run() {
    let r = one_branch_repo("/r", "main", vec![
        raw("c1", "A", "one", 1000),
        raw("c2", "A", "two", 2000),
        raw("c3", "A", "three", 90000),
    ]);
    let out = run_report(vec![r], &wide_range(), &None, "daily").unwrap();
    let headers: Vec<&str> = out.lines().filter(|l| !l.starts_with('\t')).collect();
    assert_eq!(headers, vec!["1970-01-01", "1970-01-02"]);
}

#[test]
fn unknown_format_fails_without_output() {
    let r = one_branch_repo("/r", "main", vec![raw("c1", "A", "one", 1000)]);
    match run_report(vec![r], &wide_range(), &None, "json") {
        Err(ReportError::UnknownFormat(m)) => assert_eq!(m, "json"),
        _ => panic!("expected UnknownFormat"),
    }
}

#[test]
fn rerun_is_byte_identical() {
    let build = || {
        vec![
            one_branch_repo("/repo/a", "main", vec![
                raw("c1", "A <a@x>", "first", 1000),
                raw("c3", "A <a@x>", "third", 3000),
            ]),
            one_branch_repo("/repo/b", "dev", vec![raw("c2", "B <b@y>", "second", 2000)]),
        ]
    };
    let out1 = run_report(build(), &wide_range(), &None, "flat").unwrap();
    let out2 = run_report(build(), &wide_range(), &None, "flat").unwrap();
    assert_eq!(out1, out2);
    let d1 = run_report(build(), &wide_range(), &None, "daily").unwrap();
    let d2 = run_report(build(), &wide_range(), &None, "daily").unwrap();
    assert_eq!(d1, d2);
}

#[test]
fn sentinels_for_absent_fields() {
    let rec = CommitRecord::new(
        "/r".to_string(),
        "main".to_string(),
        RawCommit {
            id: "c1".to_string(),
            author: "A".to_string(),
            summary: None,
            message: None,
            time: 1000,
        },
    );
    assert_eq!(rec.summary, "No summary");
    assert_eq!(rec.message, "No message");
}

#[test]
fn sentinel_branch_name() {
    let r = RepoCommits {
        path: "/r".to_string(),
        branches: vec![BranchCommits {
            name: None,
            commits: vec![raw("c1", "A", "one", 1000)],
        }],
    };
    let out = run_report(vec![r], &wide_range(), &None, "flat").unwrap();
    assert_eq!(out, "1970-01-01 00:16:40\t/r\tNo branch\tc1\tone\tA\n");
}

#[test]
fn equal_timestamps_keep_production_order() {
    // The sort is stable: ties keep repository processing order, then
    // branch order, then walk order.
    let r1 = one_branch_repo("/repo/a", "main", vec![
        raw("c1", "A", "a-one", 5000),
        raw("c2", "A", "a-two", 5000),
    ]);
    let r2 = one_branch_repo("/repo/b", "main", vec![raw("c3", "A", "b-one", 5000)]);
    let out = run_report(vec![r1, r2], &wide_range(), &None, "flat").unwrap();
    let summaries: Vec<&str> = out
        .lines()
        .map(|l| l.split('\t').nth(4).unwrap())
        .collect();
    assert_eq!(summaries, vec!["a-one", "a-two", "b-one"]);
}

#[test]
fn same_commit_on_two_branches_listed_twice() {
    let r = RepoCommits {
        path: "/r".to_string(),
        branches: vec![
            BranchCommits {
                name: Some("main".to_string()),
                commits: vec![raw("c1", "A", "shared", 1000)],
            },
            BranchCommits {
                name: Some("topic".to_string()),
                commits: vec![raw("c1", "A", "shared", 1000)],
            },
        ],
    };
    let out = run_report(vec![r], &wide_range(), &None, "flat").unwrap();
    assert_eq!(out.lines().count(), 2);
    assert!(out.contains("\tmain\t"));
    assert!(out.contains("\ttopic\t"));
}

#[test]
fn window_filters_commits_in_report() {
    let r = one_branch_repo("/r", "main", vec![
        raw("c1", "A", "before", 50),
        raw("c2", "A", "at-since", 100),
        raw("c3", "A", "inside", 150),
        raw("c4", "A", "at-until", 200),
        raw("c5", "A", "after", 250),
    ]);
    let tr = TimeRange {
        since: 100,
        until: 200,
    };
    let out = run_report(vec![r], &tr, &None, "flat").unwrap();
    let summaries: Vec<&str> = out
        .lines()
        .map(|l| l.split('\t').nth(4).unwrap())
        .collect();
    assert_eq!(summaries, vec!["at-since", "inside", "at-until"]);
}

#[test]
fn negative_timestamp_renders_before_epoch() {
    let r = one_branch_repo("/r", "main", vec![raw("c1", "A", "old", -1)]);
    let flat = run_report(vec![r], &TimeRange { since: i64::MIN, until: i64::MAX }, &None, "flat")
        .unwrap();
    assert_eq!(flat, "1969-12-31 23:59:59\t/r\tmain\tc1\told\tA\n");
}

#[test]
fn negative_timestamp_daily_header() {
    let r = one_branch_repo("/r", "main", vec![raw("c1", "A", "old", -1)]);
    let daily = run_report(
        vec![r],
        &TimeRange { since: i64::MIN, until: i64::MAX },
        &None,
        "daily",
    )
    .unwrap();
    assert_eq!(daily, "1969-12-31\n\t\t23:59:59\t/r\tmain\told\tA\n");
}

#[test]
fn no_repositories_give_empty_output() {
    let out = run_report(vec![], &wide_range(), &None, "flat").unwrap();
    assert_eq!(out, "");
    let out = run_report(vec![], &wide_range(), &None, "daily").unwrap();
    assert_eq!(out, "");
}

#[test]
fn author_filter_end_to_end() {
    let r = one_branch_repo("/r", "main", vec![
        raw("c1", "Alice <a@x.com>", "hers", 1000),
        raw("c2", "Bob <b@y.com>", "his", 2000),
    ]);
    let out = run_report(vec![r], &wide_range(), &Some("Alice".to_string()), "flat").unwrap();
    assert_eq!(out.lines().count(), 1);
    assert!(out.contains("\thers\t"));
    assert!(!out.contains("\this\t"));
}

#[test]
fn error_messages_name_the_input() {
    let e = ReportError::InvalidDateFormat("junk".to_string());
    assert_eq!(e.message(), "invalid date format: junk");
    let e = ReportError::UnknownFormat("json".to_string());
    assert_eq!(e.message(), "unknown format: json");
}
