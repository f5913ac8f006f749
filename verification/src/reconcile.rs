//! Reconciliation and the run summary. After the fan-in, the requested
//! repositories are compared against the results that arrived: every
//! requested name is either investigated (a result carries it) or
//! unresolved, and the two counts always add up to the number of distinct
//! requested names.
use vstd::prelude::*;

use crate::aggregate::{
    aggregate, result_adds, result_commits, result_dels, results_view, results_weight, rows_of,
    rows_view, sorted_rows, stable_sort, RepoTotals,
};
use crate::sums::sum_by;
use crate::types::{RepoContributions, RepoContributionsV};

verus! {

broadcast use {vstd::set::group_set_axioms, vstd::seq_lib::seq_to_set_is_finite};

/// The views of a list of names, in order.
pub open spec fn strings_view(ss: Seq<String>) -> Seq<Seq<char>> {
    ss.map_values(|s: String| s@)
}

/// The names the results carry, in order.
pub open spec fn result_names(rs: Seq<RepoContributionsV>) -> Seq<Seq<char>> {
    rs.map_values(|r: RepoContributionsV| r.repo_name)
}

/// How the requested repositories reconcile against the results: how many
/// distinct requested names a result arrived for, and the requested names no
/// result arrived for.
#[derive(Debug)]
pub struct Reconciliation {
    pub investigated_count: usize,
    pub unresolved: Vec<String>,
}

fn name_in_prefix(requested: &Vec<String>, upto: usize, name: &String) -> (b: bool)
    requires
        upto <= requested@.len(),
    ensures
        b == (exists|j: int| 0 <= j < upto && requested@[j]@ == name@),
{
    let mut j: usize = 0;
    while j < upto
        invariant
            j <= upto,
            upto <= requested@.len(),
            forall|k: int| 0 <= k < j ==> requested@[k]@ != name@,
        decreases upto - j,
    {
        if requested[j].eq(name) {
            return true;
        }
        j = j + 1;
    }
    false
}

fn results_contain(results: &Vec<RepoContributions>, name: &String) -> (b: bool)
    ensures
        b == (exists|j: int| 0 <= j < results@.len() && results@[j]@.repo_name == name@),
{
    let mut j: usize = 0;
    while j < results.len()
        invariant
            j <= results@.len(),
            forall|k: int| 0 <= k < j ==> results@[k]@.repo_name != name@,
        decreases results@.len() - j,
    {
        if results[j].repo_name.eq(name) {
            return true;
        }
        j = j + 1;
    }
    false
}

/// Reconciles the requested names against the arrived results. Every
/// distinct requested name lands in exactly one bucket: investigated when
/// some result carries it, unresolved otherwise — so the two bucket sizes
/// always add up to the number of distinct requested names, whatever mix of
/// terminal outcomes the fetches produced.
pub fn reconcile(requested: &Vec<String>, results: &Vec<RepoContributions>) -> (rec:
    Reconciliation)
    ensures
        strings_view(rec.unresolved@).to_set() == strings_view(requested@).to_set().difference(
            result_names(results_view(results@)).to_set(),
        ),
        strings_view(rec.unresolved@).no_duplicates(),
        rec.investigated_count == strings_view(requested@).to_set().intersect(
            result_names(results_view(results@)).to_set(),
        ).len(),
        rec.investigated_count + rec.unresolved@.len() == strings_view(requested@).to_set().len(),
{
    let ghost req = strings_view(requested@);
    let ghost found = result_names(results_view(results@)).to_set();
    let mut investigated: usize = 0;
    let mut unresolved: Vec<String> = Vec::new();
    let mut i: usize = 0;
    proof {
        assert(req.take(0) =~= Seq::<Seq<char>>::empty());
        assert(strings_view(requested@.take(0)) =~= Seq::<Seq<char>>::empty());
        assert(Seq::<Seq<char>>::empty().to_set() =~= Set::<Seq<char>>::empty());
        assert(strings_view(unresolved@) =~= Seq::<Seq<char>>::empty());
        assert(Set::<Seq<char>>::empty().intersect(found) =~= Set::<Seq<char>>::empty());
        assert(Set::<Seq<char>>::empty().difference(found) =~= Set::<Seq<char>>::empty());
    }
    while i < requested.len()
        invariant
            i <= requested@.len(),
            req == strings_view(requested@),
            found == result_names(results_view(results@)).to_set(),
            investigated + unresolved@.len() <= i,
            investigated == strings_view(requested@.take(i as int)).to_set().intersect(
                found,
            ).len(),
            strings_view(unresolved@).to_set() == strings_view(
                requested@.take(i as int),
            ).to_set().difference(found),
            strings_view(unresolved@).no_duplicates(),
            investigated + unresolved@.len() == strings_view(
                requested@.take(i as int),
            ).to_set().len(),
        decreases requested@.len() - i,
    {
        let ghost processed = strings_view(requested@.take(i as int)).to_set();
        let ghost name_v = requested@[i as int]@;
        proof {
            assert(strings_view(requested@.take(i + 1)) =~= strings_view(
                requested@.take(i as int),
            ) + seq![name_v]);
            Seq::lemma_to_set_insert_commutes(strings_view(requested@.take(i as int)), name_v);
            assert(strings_view(requested@.take(i + 1)).to_set() =~= processed.insert(name_v));
            assert(processed.contains(name_v) == strings_view(requested@.take(i as int)).contains(
                name_v,
            ));
            assert(strings_view(requested@.take(i as int)).contains(name_v) == (exists|j: int|
                0 <= j < i && requested@[j]@ == name_v)) by {
                let sv = strings_view(requested@.take(i as int));
                if exists|j: int| 0 <= j < sv.len() && sv[j] == name_v {
                    let j = choose|j: int| 0 <= j < sv.len() && sv[j] == name_v;
                    assert(requested@[j]@ == name_v);
                }
                if exists|j: int| 0 <= j < i && requested@[j]@ == name_v {
                    let j = choose|j: int| 0 <= j < i && requested@[j]@ == name_v;
                    assert(sv[j] == name_v);
                }
            }
        }
        let name = &requested[i];
        let seen = name_in_prefix(requested, i, name);
        if !seen {
            proof {
                assert(!processed.contains(name_v));
                assert(processed.insert(name_v).len() == processed.len() + 1);
            }
            let have_result = results_contain(results, name);
            proof {
                assert(found.contains(name_v) == result_names(results_view(results@)).contains(
                    name_v,
                ));
                assert(result_names(results_view(results@)).contains(name_v) == (exists|j: int|
                    0 <= j < results@.len() && results@[j]@.repo_name == name_v)) by {
                    let rn = result_names(results_view(results@));
                    if exists|j: int| 0 <= j < rn.len() && rn[j] == name_v {
                        let j = choose|j: int| 0 <= j < rn.len() && rn[j] == name_v;
                        assert(results@[j]@.repo_name == name_v);
                    }
                    if exists|j: int| 0 <= j < results@.len() && results@[j]@.repo_name == name_v {
                        let j = choose|j: int|
                            0 <= j < results@.len() && results@[j]@.repo_name == name_v;
                        assert(rn[j] == name_v);
                    }
                }
            }
            if have_result {
                proof {
                    assert(found.contains(name_v));
                    assert(processed.insert(name_v).intersect(found) =~= processed.intersect(
                        found,
                    ).insert(name_v));
                    assert(!processed.intersect(found).contains(name_v));
                    assert(processed.intersect(found).finite());
                    assert(processed.insert(name_v).difference(found) =~= processed.difference(
                        found,
                    ));
                }
                investigated = investigated + 1;
            } else {
                proof {
                    assert(!found.contains(name_v));
                    assert(processed.insert(name_v).intersect(found) =~= processed.intersect(
                        found,
                    ));
                    assert(processed.insert(name_v).difference(found) =~= processed.difference(
                        found,
                    ).insert(name_v));
                    assert(!processed.difference(found).contains(name_v));
                    assert(!strings_view(unresolved@).to_set().contains(name_v));
                    assert(!strings_view(unresolved@).contains(name_v));
                }
                let ghost unresolved_before = unresolved@;
                unresolved.push(name.clone());
                proof {
                    assert(strings_view(unresolved@) =~= strings_view(unresolved_before) + seq![
                        name_v,
                    ]);
                    Seq::lemma_to_set_insert_commutes(strings_view(unresolved_before), name_v);
                    assert(strings_view(unresolved@).to_set() =~= strings_view(
                        unresolved_before,
                    ).to_set().insert(name_v));
                    assert(strings_view(unresolved_before).to_set().contains(name_v)
                        == strings_view(unresolved_before).contains(name_v));
                    assert(forall|k: int|
                        0 <= k < strings_view(unresolved_before).len() ==> strings_view(
                            unresolved@,
                        )[k] == strings_view(unresolved_before)[k]);
                }
            }
        } else {
            proof {
                assert(processed.contains(name_v));
                assert(processed.insert(name_v) =~= processed);
            }
        }
        i = i + 1;
    }
    proof {
        assert(requested@.take(requested@.len() as int) =~= requested@);
    }
    Reconciliation { investigated_count: investigated, unresolved }
}

/// Everything a finished run reports: the sorted per-repository rows, the
/// grand totals, and the reconciliation of requested names against results.
#[derive(Debug)]
pub struct RunSummary {
    pub per_repo: Vec<RepoTotals>,
    pub total_additions: i64,
    pub total_deletions: i64,
    pub total_commits: i64,
    pub investigated_count: usize,
    pub requested_count: usize,
    pub unresolved: Vec<String>,
}

/// Builds the whole summary of a run: aggregation of the results that
/// arrived, and reconciliation against the requested names. Always
/// concludes, whatever mix of terminal outcomes the fetches produced.
pub fn run_summary(requested: &Vec<String>, results: &Vec<RepoContributions>) -> (s: RunSummary)
    requires
        results_weight(results_view(results@)) <= i64::MAX,
    ensures
        rows_view(s.per_repo@) == stable_sort(rows_of(results_view(results@))),
        sorted_rows(rows_view(s.per_repo@)),
        s.total_additions == sum_by(results_view(results@), result_adds()),
        s.total_deletions == sum_by(results_view(results@), result_dels()),
        s.total_commits == sum_by(results_view(results@), result_commits()),
        s.requested_count == requested@.len(),
        strings_view(s.unresolved@).to_set() == strings_view(requested@).to_set().difference(
            result_names(results_view(results@)).to_set(),
        ),
        strings_view(s.unresolved@).no_duplicates(),
        s.investigated_count == strings_view(requested@).to_set().intersect(
            result_names(results_view(results@)).to_set(),
        ).len(),
        s.investigated_count + s.unresolved@.len() == strings_view(requested@).to_set().len(),
        strings_view(requested@).no_duplicates() ==> s.investigated_count + s.unresolved@.len()
            == s.requested_count,
{
    proof {
        if strings_view(requested@).no_duplicates() {
            strings_view(requested@).unique_seq_to_set();
        }
    }
    let agg = aggregate(results);
    let rec = reconcile(requested, results);
    RunSummary {
        per_repo: agg.per_repo,
        total_additions: agg.total_additions,
        total_deletions: agg.total_deletions,
        total_commits: agg.total_commits,
        investigated_count: rec.investigated_count,
        requested_count: requested.len(),
        unresolved: rec.unresolved,
    }
}

} // verus!
