use ghloc::fetch::{
    fetch_step, run_fetch, FetchState, FetchVerdict, RemoteSignal, RetryConfig, StepOutcome,
};
use ghloc::types::{Author, Contribution, Week};

fn cfg(base_delay: u64, max_retries: u64) -> RetryConfig {
    RetryConfig { base_delay, max_retries }
}

fn week(a: i64, d: i64, c: i64) -> Week {
    Week { w: 0, a, d, c }
}

fn contribution(login: &str, weeks: Vec<Week>) -> Contribution {
    let total = weeks.len() as i64;
    Contribution { total, weeks, author: Author { login: login.to_owned() } }
}

#[test]
fn ready_resolves_with_data() {
    let mut state = FetchState { attempts: 0 };
    let signal = RemoteSignal::Ready(vec![contribution("me", vec![week(1, 2, 3)])]);
    let out = fetch_step(&mut state, "repo", &signal, &cfg(2, 3));
    match out {
        StepOutcome::Done(r) => {
            assert_eq!(r.repo_name.as_str(), "repo");
            assert_eq!(r.contributions.len(), 1);
            assert_eq!(r.contributions[0].author.login.as_str(), "me");
            assert_eq!(r.contributions[0].weeks[0].a, 1);
        }
        _ => panic!("expected a terminal result with data"),
    }
    assert_eq!(state.attempts, 0);
}

#[test]
fn unparseable_body_resolves_empty() {
    let mut state = FetchState { attempts: 0 };
    let out = fetch_step(&mut state, "repo", &RemoteSignal::Unparseable, &cfg(2, 3));
    match out {
        StepOutcome::Done(r) => {
            assert_eq!(r.repo_name.as_str(), "repo");
            assert!(r.contributions.is_empty());
        }
        _ => panic!("expected a terminal empty result"),
    }
    assert_eq!(state.attempts, 0);
}

#[test]
fn no_content_resolves_first_attempt() {
    let mut state = FetchState { attempts: 0 };
    let out = fetch_step(&mut state, "repo", &RemoteSignal::NoContent, &cfg(2, 3));
    assert!(matches!(out, StepOutcome::Done(_)));
    assert_eq!(state.attempts, 0);
}

#[test]
fn forbidden_resolves_first_attempt() {
    let mut state = FetchState { attempts: 1 };
    let out = fetch_step(&mut state, "repo", &RemoteSignal::Forbidden, &cfg(2, 3));
    match out {
        StepOutcome::Done(r) => assert!(r.contributions.is_empty()),
        _ => panic!("expected a terminal empty result"),
    }
    assert_eq!(state.attempts, 1);
}

#[test]
fn accepted_backs_off_linearly() {
    let mut state = FetchState { attempts: 0 };
    let policy = cfg(2, 3);
    let out = fetch_step(&mut state, "repo", &RemoteSignal::Accepted, &policy);
    assert!(matches!(out, StepOutcome::Retry(2)));
    assert_eq!(state.attempts, 1);
    let out = fetch_step(&mut state, "repo", &RemoteSignal::Accepted, &policy);
    assert!(matches!(out, StepOutcome::Retry(4)));
    assert_eq!(state.attempts, 2);
    let out = fetch_step(&mut state, "repo", &RemoteSignal::Accepted, &policy);
    assert!(matches!(out, StepOutcome::GivenUp(_)));
    assert_eq!(state.attempts, 3);
}

#[test]
fn other_status_and_transport_retry() {
    let mut state = FetchState { attempts: 0 };
    let policy = cfg(5, 10);
    let out = fetch_step(&mut state, "repo", &RemoteSignal::OtherStatus(500), &policy);
    assert!(matches!(out, StepOutcome::Retry(5)));
    let out = fetch_step(&mut state, "repo", &RemoteSignal::Transport, &policy);
    assert!(matches!(out, StepOutcome::Retry(10)));
    assert_eq!(state.attempts, 2);
}

#[test]
fn always_accepted_spends_exact_budget() {
    let signals = vec![
        RemoteSignal::Accepted,
        RemoteSignal::Accepted,
        RemoteSignal::Accepted,
        RemoteSignal::Accepted,
        RemoteSignal::Accepted,
    ];
    let report = run_fetch("repo", &signals, &cfg(1, 4));
    assert_eq!(report.verdict, FetchVerdict::GaveUp);
    assert_eq!(report.attempts, 4);
    assert!(report.result.contributions.is_empty());
    assert_eq!(report.result.repo_name.as_str(), "repo");
}

#[test]
fn no_content_run_keeps_attempt_counter() {
    let signals = vec![RemoteSignal::NoContent];
    let report = run_fetch("quiet", &signals, &cfg(1, 4));
    assert_eq!(report.verdict, FetchVerdict::Empty);
    assert_eq!(report.attempts, 0);
    assert!(report.result.contributions.is_empty());
}

#[test]
fn forbidden_run_keeps_attempt_counter() {
    let signals = vec![RemoteSignal::Forbidden];
    let report = run_fetch("locked", &signals, &cfg(1, 4));
    assert_eq!(report.verdict, FetchVerdict::Empty);
    assert_eq!(report.attempts, 0);
}

#[test]
fn transient_failures_then_data() {
    let signals = vec![
        RemoteSignal::Transport,
        RemoteSignal::OtherStatus(503),
        RemoteSignal::Ready(vec![contribution("me", vec![week(7, 0, 1)])]),
    ];
    let report = run_fetch("flaky", &signals, &cfg(1, 10));
    assert_eq!(report.verdict, FetchVerdict::Data);
    assert_eq!(report.attempts, 2);
    assert_eq!(report.result.contributions.len(), 1);
    assert_eq!(report.result.contributions[0].weeks[0].a, 7);
}
