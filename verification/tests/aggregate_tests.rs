use ghloc::aggregate::{aggregate, repo_totals, sort_rows, RepoTotals};
use ghloc::reconcile::{reconcile, run_summary};
use ghloc::types::{Author, Contribution, RepoContributions, Week};

fn week(a: i64, d: i64, c: i64) -> Week {
    Week { w: 0, a, d, c }
}

fn contribution(login: &str, weeks: Vec<Week>) -> Contribution {
    let total = weeks.len() as i64;
    Contribution { total, weeks, author: Author { login: login.to_owned() } }
}

fn result(name: &str, contributions: Vec<Contribution>) -> RepoContributions {
    RepoContributions::new(name.to_owned(), contributions)
}

fn row(name: &str, additions: i64, deletions: i64, commits: i64) -> RepoTotals {
    RepoTotals { repo_name: name.to_owned(), additions, deletions, commits }
}

#[test]
fn totals_fold_all_weeks_of_all_contributors() {
    let rc = result(
        "r",
        vec![
            contribution("me", vec![week(10, 2, 1), week(3, 3, 2)]),
            contribution("you", vec![week(1, 1, 1)]),
        ],
    );
    let t = repo_totals(&rc);
    assert_eq!(t.repo_name.as_str(), "r");
    assert_eq!(t.additions, 14);
    assert_eq!(t.deletions, 6);
    assert_eq!(t.commits, 4);
}

#[test]
fn totals_of_empty_result_are_zero() {
    let rc = RepoContributions::empty("bare".to_owned());
    let t = repo_totals(&rc);
    assert_eq!(t.additions, 0);
    assert_eq!(t.deletions, 0);
    assert_eq!(t.commits, 0);
}

#[test]
fn negative_deltas_sum_through() {
    let rc = result("r", vec![contribution("me", vec![week(-5, 4, 0), week(2, -1, 1)])]);
    let t = repo_totals(&rc);
    assert_eq!(t.additions, -3);
    assert_eq!(t.deletions, 3);
    assert_eq!(t.commits, 1);
}

#[test]
fn sort_is_ascending_by_additions() {
    let rows = vec![row("c", 30, 0, 0), row("a", 10, 0, 0), row("b", 20, 0, 0)];
    let sorted = sort_rows(&rows);
    let names: Vec<&str> = sorted.iter().map(|t| t.repo_name.as_str()).collect();
    assert_eq!(names, vec!["a", "b", "c"]);
}

#[test]
fn sort_keeps_encounter_order_on_ties() {
    let rows = vec![row("first", 5, 1, 0), row("second", 5, 2, 0), row("third", 1, 3, 0)];
    let sorted = sort_rows(&rows);
    let names: Vec<&str> = sorted.iter().map(|t| t.repo_name.as_str()).collect();
    assert_eq!(names, vec!["third", "first", "second"]);
}

#[test]
fn aggregate_on_empty_input() {
    let results: Vec<RepoContributions> = Vec::new();
    let agg = aggregate(&results);
    assert!(agg.per_repo.is_empty());
    assert_eq!(agg.total_additions, 0);
    assert_eq!(agg.total_deletions, 0);
    assert_eq!(agg.total_commits, 0);
}

#[test]
fn aggregate_ignores_input_order() {
    let forwards = vec![
        result("a", vec![contribution("me", vec![week(10, 2, 1)])]),
        result("b", vec![contribution("me", vec![week(5, 1, 1)])]),
    ];
    let backwards = vec![
        result("b", vec![contribution("me", vec![week(5, 1, 1)])]),
        result("a", vec![contribution("me", vec![week(10, 2, 1)])]),
    ];
    let x = aggregate(&forwards);
    let y = aggregate(&backwards);
    assert_eq!(x.total_additions, y.total_additions);
    assert_eq!(x.total_deletions, y.total_deletions);
    assert_eq!(x.total_commits, y.total_commits);
    assert_eq!(x.per_repo.len(), y.per_repo.len());
    for (r1, r2) in x.per_repo.iter().zip(y.per_repo.iter()) {
        assert_eq!(r1.repo_name, r2.repo_name);
        assert_eq!(r1.additions, r2.additions);
        assert_eq!(r1.deletions, r2.deletions);
        assert_eq!(r1.commits, r2.commits);
    }
}

#[test]
fn reconcile_counts_always_balance() {
    let requested = vec!["a".to_owned(), "b".to_owned(), "c".to_owned()];
    let results = vec![
        result("a", Vec::new()),
        result("c", vec![contribution("me", vec![week(1, 0, 1)])]),
    ];
    let rec = reconcile(&requested, &results);
    assert_eq!(rec.investigated_count, 2);
    assert_eq!(rec.unresolved.len(), 1);
    assert_eq!(rec.unresolved[0].as_str(), "b");
    assert_eq!(rec.investigated_count + rec.unresolved.len(), 3);
}

#[test]
fn reconcile_with_no_results() {
    let requested = vec!["a".to_owned(), "b".to_owned()];
    let results: Vec<RepoContributions> = Vec::new();
    let rec = reconcile(&requested, &results);
    assert_eq!(rec.investigated_count, 0);
    assert_eq!(rec.unresolved.len(), 2);
}

#[test]
fn reconcile_deduplicates_requested_names() {
    let requested = vec!["a".to_owned(), "a".to_owned(), "b".to_owned()];
    let results = vec![result("a", Vec::new())];
    let rec = reconcile(&requested, &results);
    assert_eq!(rec.investigated_count, 1);
    assert_eq!(rec.unresolved.len(), 1);
    assert_eq!(rec.investigated_count + rec.unresolved.len(), 2);
}

#[test]
fn summary_reports_every_requested_repo_once() {
    let requested = vec!["a".to_owned(), "b".to_owned(), "c".to_owned(), "d".to_owned()];
    let results = vec![
        result("a", vec![contribution("me", vec![week(4, 0, 2)])]),
        result("d", Vec::new()),
    ];
    let s = run_summary(&requested, &results);
    assert_eq!(s.requested_count, 4);
    assert_eq!(s.investigated_count, 2);
    assert_eq!(s.unresolved.len(), 2);
    assert_eq!(s.investigated_count + s.unresolved.len(), 4);
    assert_eq!(s.total_additions, 4);
    assert_eq!(s.total_commits, 2);
}
