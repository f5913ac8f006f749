use ghloc::fetch::{run_fetch, FetchVerdict, RemoteSignal, RetryConfig};
use ghloc::reconcile::run_summary;
use ghloc::types::{Author, Config, Contribution, RepoContributions, RepoSummary, Week};

fn week(a: i64, d: i64, c: i64) -> Week {
    Week { w: 0, a, d, c }
}

fn contribution(login: &str, weeks: Vec<Week>) -> Contribution {
    let total = weeks.len() as i64;
    Contribution { total, weeks, author: Author { login: login.to_owned() } }
}

#[test]
fn two_repo_run_end_to_end() {
    let policy = RetryConfig { base_delay: 1, max_retries: 5 };

    let a_signals = vec![RemoteSignal::Ready(vec![contribution("me", vec![week(10, 2, 1)])])];
    let a_report = run_fetch("a", &a_signals, &policy);
    assert_eq!(a_report.verdict, FetchVerdict::Data);
    assert_eq!(a_report.attempts, 0);

    let b_signals = vec![
        RemoteSignal::Accepted,
        RemoteSignal::Accepted,
        RemoteSignal::Ready(vec![contribution("me", vec![week(5, 1, 1), week(0, 0, 0)])]),
    ];
    let b_report = run_fetch("b", &b_signals, &policy);
    assert_eq!(b_report.verdict, FetchVerdict::Data);
    assert_eq!(b_report.attempts, 2);

    let requested = vec!["a".to_owned(), "b".to_owned()];
    let results: Vec<RepoContributions> = vec![a_report.result, b_report.result];
    let s = run_summary(&requested, &results);

    assert_eq!(s.per_repo.len(), 2);
    assert_eq!(s.per_repo[0].repo_name.as_str(), "b");
    assert_eq!(s.per_repo[0].additions, 5);
    assert_eq!(s.per_repo[0].deletions, 1);
    assert_eq!(s.per_repo[0].commits, 1);
    assert_eq!(s.per_repo[1].repo_name.as_str(), "a");
    assert_eq!(s.per_repo[1].additions, 10);
    assert_eq!(s.per_repo[1].deletions, 2);
    assert_eq!(s.per_repo[1].commits, 1);
    assert_eq!(s.total_additions, 15);
    assert_eq!(s.total_deletions, 3);
    assert_eq!(s.total_commits, 2);
    assert_eq!(s.investigated_count, 2);
    assert_eq!(s.requested_count, 2);
    assert!(s.unresolved.is_empty());
}

#[test]
fn summary_display_lists_all_totals() {
    let summary = RepoSummary {
        login: "me".to_owned(),
        name: "r".to_owned(),
        total_commits: 12,
        total_additions: 3400,
        total_deletions: -7,
    };
    assert_eq!(
        summary.display_string(),
        "----------\nCommits: 12\nAdditions: 3400\nDeletions: -7"
    );
}

#[test]
fn config_display_masks_the_token() {
    let config = Config {
        username: Some("me".to_owned()),
        token: Some("secret".to_owned()),
    };
    assert_eq!(config.display_string(), "Username: me\nToken: ******");
}

#[test]
fn config_display_without_values() {
    let config = Config { username: None, token: None };
    assert_eq!(config.display_string(), "Username: Not set\nToken: Not set");
}

#[test]
fn default_config_is_unset() {
    let config = Config::default();
    assert!(config.username.is_none());
    assert!(config.token.is_none());
}

#[test]
fn empty_result_carries_its_name() {
    let r = RepoContributions::empty("lonely".to_owned());
    assert_eq!(r.repo_name.as_str(), "lonely");
    assert!(r.contributions.is_empty());
}
