//! The per-repository retry state machine for the contributor-statistics
//! endpoint. The remote side computes statistics asynchronously, so a fetch
//! may have to poll: each response is classified into a signal, and the
//! machine either resolves to a terminal result or asks for one more attempt
//! after a linearly growing delay. The caller performs the actual request and
//! the sleep; every decision is made here.
use vstd::prelude::*;

use crate::types::{
    contributions_view, Author, Contribution, ContributionV, Contributions, RepoContributions,
    Week,
};

verus! {

/// Retry policy: the base delay in seconds and the attempt budget.
#[derive(Debug, Clone, Copy)]
pub struct RetryConfig {
    pub base_delay: u64,
    pub max_retries: u64,
}

impl RetryConfig {
    /// The largest delay ever computed is `base_delay * max_retries`, so the
    /// policy is well formed when that product fits in the delay type.
    pub open spec fn wf(self) -> bool {
        self.base_delay * self.max_retries <= u64::MAX
    }
}

/// A response of the contributor-statistics endpoint, classified.
#[derive(Debug)]
pub enum RemoteSignal {
    /// HTTP 200 with a body that decoded into contributor records.
    Ready(Contributions),
    /// HTTP 200 whose body could not be decoded.
    Unparseable,
    /// HTTP 202: statistics are still being computed.
    Accepted,
    /// HTTP 204: the repository has no contributor statistics.
    NoContent,
    /// HTTP 403: forbidden, a permission or rate-limit problem.
    Forbidden,
    /// Any other non-success status.
    OtherStatus(u16),
    /// The request itself failed at the transport layer.
    Transport,
}

/// The mutable state of one fetch: how many retries have been spent.
#[derive(Debug, Clone, Copy)]
pub struct FetchState {
    pub attempts: u64,
}

/// What a single step of the machine decided.
#[derive(Debug)]
pub enum StepOutcome {
    /// Terminal: the repository resolved, with data or genuinely empty.
    Done(RepoContributions),
    /// Poll again after this many seconds.
    Retry(u64),
    /// Terminal: the retry budget is exhausted; the result is empty.
    GivenUp(RepoContributions),
}

/// How a fetch ended, for diagnostics: with data, with a genuinely empty
/// result, or by exhausting its retry budget.
#[derive(Debug, PartialEq, Eq, Structural, Clone, Copy)]
pub enum FetchVerdict {
    Data,
    Empty,
    GaveUp,
}

/// A signal that resolves the fetch at once, without another attempt.
pub open spec fn signal_verdict(s: RemoteSignal) -> Option<FetchVerdict> {
    match s {
        RemoteSignal::Ready(_) => Some(FetchVerdict::Data),
        RemoteSignal::Unparseable => Some(FetchVerdict::Empty),
        RemoteSignal::NoContent => Some(FetchVerdict::Empty),
        RemoteSignal::Forbidden => Some(FetchVerdict::Empty),
        RemoteSignal::Accepted => None,
        RemoteSignal::OtherStatus(_) => None,
        RemoteSignal::Transport => None,
    }
}

/// A signal answered by one more attempt: still computing, an unexpected
/// status, or a transport failure.
pub open spec fn is_retryable(s: RemoteSignal) -> bool {
    signal_verdict(s) is None
}

/// The outcome holds an empty result under the given repository name.
pub open spec fn empty_result(out: RepoContributions, name: Seq<char>) -> bool {
    &&& out@.repo_name == name
    &&& out@.contributions =~= Seq::<ContributionV>::empty()
}

/// One transition of the state machine, given the classified response of one
/// attempt. Terminal signals resolve immediately and leave the attempt
/// counter untouched; retryable signals spend one unit of the budget and
/// either schedule another attempt after `base_delay * attempts` seconds
/// (linear backoff) or, once the budget is gone, give up with an empty
/// result.
pub fn fetch_step(
    state: &mut FetchState,
    repo_name: &str,
    signal: &RemoteSignal,
    cfg: &RetryConfig,
) -> (out: StepOutcome)
    requires
        cfg.wf(),
        old(state).attempts <= cfg.max_retries,
    ensures
        final(state).attempts <= cfg.max_retries,
        match *signal {
            RemoteSignal::Ready(ref c) => {
                &&& *final(state) == *old(state)
                &&& out matches StepOutcome::Done(r) && r@.repo_name == repo_name@
                    && r@.contributions == contributions_view(c@)
            },
            RemoteSignal::Unparseable | RemoteSignal::NoContent | RemoteSignal::Forbidden => {
                &&& *final(state) == *old(state)
                &&& out matches StepOutcome::Done(r) && empty_result(r, repo_name@)
            },
            RemoteSignal::Accepted | RemoteSignal::OtherStatus(_) | RemoteSignal::Transport => {
                if old(state).attempts < cfg.max_retries {
                    &&& final(state).attempts == old(state).attempts + 1
                    &&& if old(state).attempts + 1 < cfg.max_retries {
                        out matches StepOutcome::Retry(d)
                            && d == cfg.base_delay * (old(state).attempts + 1)
                    } else {
                        out matches StepOutcome::GivenUp(r) && empty_result(r, repo_name@)
                    }
                } else {
                    &&& *final(state) == *old(state)
                    &&& out matches StepOutcome::GivenUp(r) && empty_result(r, repo_name@)
                }
            },
        },
{
    match signal {
        RemoteSignal::Ready(c) => {
            let data = copy_contributions(c);
            StepOutcome::Done(RepoContributions::new(repo_name.to_owned(), data))
        },
        RemoteSignal::Unparseable => StepOutcome::Done(
            RepoContributions::empty(repo_name.to_owned()),
        ),
        RemoteSignal::NoContent => StepOutcome::Done(
            RepoContributions::empty(repo_name.to_owned()),
        ),
        RemoteSignal::Forbidden => StepOutcome::Done(
            RepoContributions::empty(repo_name.to_owned()),
        ),
        RemoteSignal::Accepted | RemoteSignal::OtherStatus(_) | RemoteSignal::Transport => {
            if state.attempts < cfg.max_retries {
                let next_attempt = state.attempts + 1;
                proof {
                    lemma_delay_fits(cfg.base_delay, next_attempt, cfg.max_retries);
                }
                let delay = cfg.base_delay * next_attempt;
                state.attempts = next_attempt;
                if next_attempt < cfg.max_retries {
                    StepOutcome::Retry(delay)
                } else {
                    StepOutcome::GivenUp(RepoContributions::empty(repo_name.to_owned()))
                }
            } else {
                StepOutcome::GivenUp(RepoContributions::empty(repo_name.to_owned()))
            }
        },
    }
}

/// What a whole fetch yields when the endpoint answers with the given
/// signals, starting at position `i` with `attempts` retries already spent:
/// the verdict, the final attempt count, and the position of the signal on
/// which the fetch resolved. `None` means the signals ran out first; a real
/// endpoint always answers, so a driver requires this to be `Some`.
pub open spec fn spec_run_from(
    signals: Seq<RemoteSignal>,
    i: int,
    attempts: int,
    max: int,
) -> Option<(FetchVerdict, int, int)>
    decreases signals.len() - i,
{
    if i < 0 || i >= signals.len() {
        None
    } else {
        match signal_verdict(signals[i]) {
            Some(v) => Some((v, attempts, i)),
            None => {
                if attempts < max {
                    if attempts + 1 < max {
                        spec_run_from(signals, i + 1, attempts + 1, max)
                    } else {
                        Some((FetchVerdict::GaveUp, attempts + 1, i))
                    }
                } else {
                    Some((FetchVerdict::GaveUp, attempts, i))
                }
            },
        }
    }
}

/// What one fetch reported: the terminal result handed to the orchestrator,
/// how it ended, and how many retries it spent.
#[derive(Debug)]
pub struct FetchReport {
    pub result: RepoContributions,
    pub verdict: FetchVerdict,
    pub attempts: u64,
}

/// Drives the state machine over a fixed sequence of endpoint answers, one
/// `fetch_step` per signal, until it resolves. This is the whole fetch of one
/// repository with the endpoint replaced by its answer trace; a caller that
/// polls a live endpoint makes the same steps one response at a time.
pub fn run_fetch(repo_name: &str, signals: &Vec<RemoteSignal>, cfg: &RetryConfig) -> (rep:
    FetchReport)
    requires
        cfg.wf(),
        spec_run_from(signals@, 0, 0, cfg.max_retries as int) is Some,
    ensures
        ({
            let (verdict, attempts, resolved_at) = spec_run_from(
                signals@,
                0,
                0,
                cfg.max_retries as int,
            )->Some_0;
            &&& rep.verdict == verdict
            &&& rep.attempts == attempts
            &&& rep.result@.repo_name == repo_name@
            &&& (rep.verdict == FetchVerdict::Data ==> (signals@[resolved_at] matches
                RemoteSignal::Ready(c) && rep.result@.contributions == contributions_view(c@)))
            &&& (rep.verdict != FetchVerdict::Data ==> rep.result@.contributions
                =~= Seq::<ContributionV>::empty())
        }),
{
    let ghost full = spec_run_from(signals@, 0, 0, cfg.max_retries as int);
    let mut state = FetchState { attempts: 0 };
    let mut i: usize = 0;
    loop
        invariant
            cfg.wf(),
            state.attempts <= cfg.max_retries,
            0 <= i <= signals.len(),
            full is Some,
            full == spec_run_from(signals@, 0, 0, cfg.max_retries as int),
            spec_run_from(signals@, i as int, state.attempts as int, cfg.max_retries as int)
                == full,
        decreases signals.len() - i,
    {
        assert(i < signals.len());
        let signal = &signals[i];
        let ghost attempts_before = state.attempts;
        let out = fetch_step(&mut state, repo_name, signal, cfg);
        match out {
            StepOutcome::Done(result) => {
                let verdict = match signal {
                    RemoteSignal::Ready(_) => FetchVerdict::Data,
                    _ => FetchVerdict::Empty,
                };
                return FetchReport { result, verdict, attempts: state.attempts };
            },
            StepOutcome::GivenUp(result) => {
                return FetchReport { result, verdict: FetchVerdict::GaveUp, attempts: state.attempts };
            },
            StepOutcome::Retry(_) => {
                i = i + 1;
            },
        }
    }
}

/// Retry bound, generalized to any tail of an all-retryable answer trace:
/// with `attempts` already spent and enough answers left, the fetch spends
/// the rest of its budget and gives up on the signal that exhausts it.
pub proof fn lemma_retry_bound_from(signals: Seq<RemoteSignal>, i: int, attempts: int, max: int)
    requires
        0 <= i <= signals.len(),
        0 <= attempts < max,
        signals.len() - i >= max - attempts,
        forall|j: int| i <= j < signals.len() ==> is_retryable(#[trigger] signals[j]),
    ensures
        spec_run_from(signals, i, attempts, max) == Some(
            (FetchVerdict::GaveUp, max, i + (max - attempts) - 1),
        ),
    decreases max - attempts,
{
    if attempts + 1 < max {
        lemma_retry_bound_from(signals, i + 1, attempts + 1, max);
    }
}

/// Retry bound: against an endpoint that always answers "still computing"
/// (HTTP 202), a fetch performs exactly its budget of attempts and then
/// gives up with an empty result; it never loops beyond the budget.
pub proof fn lemma_retry_bound(signals: Seq<RemoteSignal>, cfg: RetryConfig)
    requires
        cfg.max_retries >= 1,
        signals.len() >= cfg.max_retries,
        forall|j: int| 0 <= j < signals.len() ==> #[trigger] signals[j] is Accepted,
    ensures
        spec_run_from(signals, 0, 0, cfg.max_retries as int) == Some(
            (FetchVerdict::GaveUp, cfg.max_retries as int, cfg.max_retries - 1),
        ),
{
    assert(forall|j: int| 0 <= j < signals.len() ==> is_retryable(#[trigger] signals[j]));
    lemma_retry_bound_from(signals, 0, 0, cfg.max_retries as int);
}

/// Terminal classification: a "no content" (204) or "forbidden" (403) answer
/// resolves the fetch on the very first attempt with an empty result, and
/// the attempt counter keeps its pre-call value.
pub proof fn lemma_terminal_classification(signals: Seq<RemoteSignal>, attempts: int, max: int)
    requires
        signals.len() >= 1,
        signals[0] is NoContent || signals[0] is Forbidden,
    ensures
        spec_run_from(signals, 0, attempts, max) == Some((FetchVerdict::Empty, attempts, 0int)),
{
}

proof fn lemma_delay_fits(base: u64, n: u64, max: u64)
    requires
        n <= max,
        base * max <= u64::MAX,
    ensures
        base * n <= u64::MAX,
{
    assert(base * n <= base * max) by (nonlinear_arith)
        requires n <= max,
    ;
}

fn copy_contribution(c: &Contribution) -> (r: Contribution)
    ensures
        r@ == c@,
{
    let mut weeks: Vec<Week> = Vec::new();
    let mut i: usize = 0;
    while i < c.weeks.len()
        invariant
            i <= c.weeks.len(),
            weeks@ =~= c.weeks@.take(i as int),
        decreases c.weeks.len() - i,
    {
        weeks.push(c.weeks[i]);
        i = i + 1;
    }
    proof {
        assert(weeks@ =~= c.weeks@);
    }
    let r = Contribution { total: c.total, weeks, author: Author { login: c.author.login.clone() } };
    proof {
        assert(r@.weeks =~= c@.weeks);
    }
    r
}

/// Copies a decoded response body so that a step can hand it on while the
/// classified signal stays with its caller.
fn copy_contributions(v: &Contributions) -> (r: Contributions)
    ensures
        contributions_view(r@) == contributions_view(v@),
{
    let mut out: Contributions = Vec::new();
    let mut i: usize = 0;
    while i < v.len()
        invariant
            i <= v.len(),
            out@.len() == i,
            forall|j: int| 0 <= j < i ==> out@[j]@ == v@[j]@,
        decreases v.len() - i,
    {
        let c = copy_contribution(&v[i]);
        out.push(c);
        i = i + 1;
    }
    proof {
        assert(contributions_view(out@) =~= contributions_view(v@));
    }
    out
}

} // verus!
