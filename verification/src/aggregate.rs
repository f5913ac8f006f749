//! Aggregation: folds each repository's weekly data into per-repository
//! totals, sorts the rows ascending by total additions (stable, so ties keep
//! their encounter order), and computes grand totals. A pure function of the
//! result sequence: the order in which concurrent fetches completed cannot
//! change the summary beyond the encounter order of tied rows.
use vstd::math::abs;
use vstd::multiset::Multiset;
use vstd::prelude::*;

use crate::sums::{
    lemma_sum_by_bounds, lemma_sum_by_element_bound, lemma_sum_by_nonneg,
    lemma_sum_by_take_all, lemma_sum_by_take_bound, lemma_sum_by_take_step, sum_by,
};
use crate::types::{
    contributions_view, ContributionV, RepoContributions, RepoContributionsV, Week,
};

verus! {

/// Additions of one week.
pub open spec fn wk_adds() -> spec_fn(Week) -> int {
    |w: Week| w.a as int
}

/// Deletions of one week.
pub open spec fn wk_dels() -> spec_fn(Week) -> int {
    |w: Week| w.d as int
}

/// Commits of one week.
pub open spec fn wk_commits() -> spec_fn(Week) -> int {
    |w: Week| w.c as int
}

/// The weight of one week: how much any of its fields can move a running
/// total in either direction. Totals stay in machine range as long as the
/// total weight does.
pub open spec fn wk_weight() -> spec_fn(Week) -> int {
    |w: Week| (abs(w.a as int) + abs(w.d as int) + abs(w.c as int)) as int
}

/// Additions of one contributor record, over all its weeks.
pub open spec fn contrib_adds() -> spec_fn(ContributionV) -> int {
    |c: ContributionV| sum_by(c.weeks, wk_adds())
}

/// Deletions of one contributor record.
pub open spec fn contrib_dels() -> spec_fn(ContributionV) -> int {
    |c: ContributionV| sum_by(c.weeks, wk_dels())
}

/// Commits of one contributor record.
pub open spec fn contrib_commits() -> spec_fn(ContributionV) -> int {
    |c: ContributionV| sum_by(c.weeks, wk_commits())
}

/// Weight of one contributor record.
pub open spec fn contrib_weight() -> spec_fn(ContributionV) -> int {
    |c: ContributionV| sum_by(c.weeks, wk_weight())
}

/// Total additions of one repository: all weeks of all contributors.
pub open spec fn repo_adds(r: RepoContributionsV) -> int {
    sum_by(r.contributions, contrib_adds())
}

/// Total deletions of one repository.
pub open spec fn repo_dels(r: RepoContributionsV) -> int {
    sum_by(r.contributions, contrib_dels())
}

/// Total commits of one repository.
pub open spec fn repo_commits(r: RepoContributionsV) -> int {
    sum_by(r.contributions, contrib_commits())
}

/// Weight of one repository's result.
pub open spec fn repo_weight(r: RepoContributionsV) -> int {
    sum_by(r.contributions, contrib_weight())
}

/// Additions of one result, as a measure over result views.
pub open spec fn result_adds() -> spec_fn(RepoContributionsV) -> int {
    |r: RepoContributionsV| repo_adds(r)
}

/// Deletions of one result, as a measure over result views.
pub open spec fn result_dels() -> spec_fn(RepoContributionsV) -> int {
    |r: RepoContributionsV| repo_dels(r)
}

/// Commits of one result, as a measure over result views.
pub open spec fn result_commits() -> spec_fn(RepoContributionsV) -> int {
    |r: RepoContributionsV| repo_commits(r)
}

/// Weight of one result, as a measure over result views.
pub open spec fn result_weight() -> spec_fn(RepoContributionsV) -> int {
    |r: RepoContributionsV| repo_weight(r)
}

/// The views of a batch of results, in order.
pub open spec fn results_view(rs: Seq<RepoContributions>) -> Seq<RepoContributionsV> {
    rs.map_values(|r: RepoContributions| r@)
}

/// The weight of a whole batch: every total computed during aggregation lies
/// within plus or minus this value, so a batch whose weight fits in the
/// total type overflows nothing.
pub open spec fn results_weight(rs: Seq<RepoContributionsV>) -> int {
    sum_by(rs, result_weight())
}

proof fn lemma_week_measures(ws: Seq<Week>)
    ensures
        forall|j: int| 0 <= j < ws.len() ==> #[trigger] wk_weight()(ws[j]) >= 0,
        -sum_by(ws, wk_weight()) <= sum_by(ws, wk_adds()) <= sum_by(ws, wk_weight()),
        -sum_by(ws, wk_weight()) <= sum_by(ws, wk_dels()) <= sum_by(ws, wk_weight()),
        -sum_by(ws, wk_weight()) <= sum_by(ws, wk_commits()) <= sum_by(ws, wk_weight()),
        sum_by(ws, wk_weight()) >= 0,
{
    assert(forall|j: int|
        0 <= j < ws.len() ==> -wk_weight()(ws[j]) <= #[trigger] wk_adds()(ws[j]) <= wk_weight()(
            ws[j],
        ));
    assert(forall|j: int|
        0 <= j < ws.len() ==> -wk_weight()(ws[j]) <= #[trigger] wk_dels()(ws[j]) <= wk_weight()(
            ws[j],
        ));
    assert(forall|j: int|
        0 <= j < ws.len() ==> -wk_weight()(ws[j]) <= #[trigger] wk_commits()(ws[j])
            <= wk_weight()(ws[j]));
    lemma_sum_by_bounds(ws, wk_adds(), wk_weight());
    lemma_sum_by_bounds(ws, wk_dels(), wk_weight());
    lemma_sum_by_bounds(ws, wk_commits(), wk_weight());
    lemma_sum_by_nonneg(ws, wk_weight());
}

proof fn lemma_contrib_measures(cs: Seq<ContributionV>)
    ensures
        forall|j: int| 0 <= j < cs.len() ==> #[trigger] contrib_weight()(cs[j]) >= 0,
        -sum_by(cs, contrib_weight()) <= sum_by(cs, contrib_adds()) <= sum_by(
            cs,
            contrib_weight(),
        ),
        -sum_by(cs, contrib_weight()) <= sum_by(cs, contrib_dels()) <= sum_by(
            cs,
            contrib_weight(),
        ),
        -sum_by(cs, contrib_weight()) <= sum_by(cs, contrib_commits()) <= sum_by(
            cs,
            contrib_weight(),
        ),
        sum_by(cs, contrib_weight()) >= 0,
{
    assert forall|j: int| 0 <= j < cs.len() implies {
        &&& #[trigger] contrib_weight()(cs[j]) >= 0
        &&& -contrib_weight()(cs[j]) <= contrib_adds()(cs[j]) <= contrib_weight()(cs[j])
        &&& -contrib_weight()(cs[j]) <= contrib_dels()(cs[j]) <= contrib_weight()(cs[j])
        &&& -contrib_weight()(cs[j]) <= contrib_commits()(cs[j]) <= contrib_weight()(cs[j])
    } by {
        lemma_week_measures(cs[j].weeks);
    }
    lemma_sum_by_bounds(cs, contrib_adds(), contrib_weight());
    lemma_sum_by_bounds(cs, contrib_dels(), contrib_weight());
    lemma_sum_by_bounds(cs, contrib_commits(), contrib_weight());
    lemma_sum_by_nonneg(cs, contrib_weight());
}

proof fn lemma_result_measures(rs: Seq<RepoContributionsV>)
    ensures
        forall|j: int| 0 <= j < rs.len() ==> #[trigger] result_weight()(rs[j]) >= 0,
        -results_weight(rs) <= sum_by(rs, result_adds()) <= results_weight(rs),
        -results_weight(rs) <= sum_by(rs, result_dels()) <= results_weight(rs),
        -results_weight(rs) <= sum_by(rs, result_commits()) <= results_weight(rs),
        results_weight(rs) >= 0,
{
    assert forall|j: int| 0 <= j < rs.len() implies {
        &&& #[trigger] result_weight()(rs[j]) >= 0
        &&& -result_weight()(rs[j]) <= result_adds()(rs[j]) <= result_weight()(rs[j])
        &&& -result_weight()(rs[j]) <= result_dels()(rs[j]) <= result_weight()(rs[j])
        &&& -result_weight()(rs[j]) <= result_commits()(rs[j]) <= result_weight()(rs[j])
    } by {
        lemma_contrib_measures(rs[j].contributions);
    }
    lemma_sum_by_bounds(rs, result_adds(), result_weight());
    lemma_sum_by_bounds(rs, result_dels(), result_weight());
    lemma_sum_by_bounds(rs, result_commits(), result_weight());
    lemma_sum_by_nonneg(rs, result_weight());
}

/// Sums additions, deletions and commits over one contributor's weeks.
fn week_sums(ws: &Vec<Week>) -> (t: (i64, i64, i64))
    requires
        sum_by(ws@, wk_weight()) <= i64::MAX,
    ensures
        t.0 == sum_by(ws@, wk_adds()),
        t.1 == sum_by(ws@, wk_dels()),
        t.2 == sum_by(ws@, wk_commits()),
{
    let mut a: i64 = 0;
    let mut d: i64 = 0;
    let mut c: i64 = 0;
    let mut i: usize = 0;
    while i < ws.len()
        invariant
            i <= ws.len(),
            sum_by(ws@, wk_weight()) <= i64::MAX,
            a == sum_by(ws@.take(i as int), wk_adds()),
            d == sum_by(ws@.take(i as int), wk_dels()),
            c == sum_by(ws@.take(i as int), wk_commits()),
        decreases ws.len() - i,
    {
        proof {
            lemma_sum_by_take_step(ws@, wk_adds(), i as int);
            lemma_sum_by_take_step(ws@, wk_dels(), i as int);
            lemma_sum_by_take_step(ws@, wk_commits(), i as int);
            lemma_week_measures(ws@);
            lemma_week_measures(ws@.take(i + 1));
            lemma_sum_by_take_bound(ws@, wk_weight(), i + 1);
            assert(wk_adds()(ws@[i as int]) == ws@[i as int].a as int);
            assert(wk_dels()(ws@[i as int]) == ws@[i as int].d as int);
            assert(wk_commits()(ws@[i as int]) == ws@[i as int].c as int);
        }
        a = a + ws[i].a;
        d = d + ws[i].d;
        c = c + ws[i].c;
        i = i + 1;
    }
    proof {
        lemma_sum_by_take_all(ws@, wk_adds());
        lemma_sum_by_take_all(ws@, wk_dels());
        lemma_sum_by_take_all(ws@, wk_commits());
    }
    (a, d, c)
}

/// One row of the sorted report: a repository and its summed activity.
#[derive(Debug)]
pub struct RepoTotals {
    pub repo_name: String,
    pub additions: i64,
    pub deletions: i64,
    pub commits: i64,
}

/// Mathematical view of one report row.
pub struct RepoTotalsV {
    pub repo_name: Seq<char>,
    pub additions: i64,
    pub deletions: i64,
    pub commits: i64,
}

impl View for RepoTotals {
    type V = RepoTotalsV;

    open spec fn view(&self) -> RepoTotalsV {
        RepoTotalsV {
            repo_name: self.repo_name@,
            additions: self.additions,
            deletions: self.deletions,
            commits: self.commits,
        }
    }
}

/// The row a result aggregates to: per-repository sums over all weeks of all
/// contributors, the per-author breakdown forgotten.
pub open spec fn totals_of(r: RepoContributionsV) -> RepoTotalsV {
    RepoTotalsV {
        repo_name: r.repo_name,
        additions: repo_adds(r) as i64,
        deletions: repo_dels(r) as i64,
        commits: repo_commits(r) as i64,
    }
}

/// Folds one repository's result into its report row.
pub fn repo_totals(rc: &RepoContributions) -> (t: RepoTotals)
    requires
        repo_weight(rc@) <= i64::MAX,
    ensures
        t@ == totals_of(rc@),
{
    let ghost cv = contributions_view(rc.contributions@);
    let mut a: i64 = 0;
    let mut d: i64 = 0;
    let mut c: i64 = 0;
    let mut i: usize = 0;
    while i < rc.contributions.len()
        invariant
            i <= rc.contributions.len(),
            cv == contributions_view(rc.contributions@),
            cv.len() == rc.contributions@.len(),
            sum_by(cv, contrib_weight()) <= i64::MAX,
            a == sum_by(cv.take(i as int), contrib_adds()),
            d == sum_by(cv.take(i as int), contrib_dels()),
            c == sum_by(cv.take(i as int), contrib_commits()),
        decreases rc.contributions.len() - i,
    {
        proof {
            assert(cv[i as int] == rc.contributions@[i as int]@);
            lemma_contrib_measures(cv);
            lemma_sum_by_element_bound(cv, contrib_weight(), i as int);
            assert(contrib_weight()(cv[i as int]) == sum_by(cv[i as int].weeks, wk_weight()));
        }
        let (wa, wd, wc) = week_sums(&rc.contributions[i].weeks);
        proof {
            lemma_sum_by_take_step(cv, contrib_adds(), i as int);
            lemma_sum_by_take_step(cv, contrib_dels(), i as int);
            lemma_sum_by_take_step(cv, contrib_commits(), i as int);
            lemma_contrib_measures(cv.take(i + 1));
            lemma_sum_by_take_bound(cv, contrib_weight(), i + 1);
            assert(contrib_adds()(cv[i as int]) == sum_by(cv[i as int].weeks, wk_adds()));
            assert(contrib_dels()(cv[i as int]) == sum_by(cv[i as int].weeks, wk_dels()));
            assert(contrib_commits()(cv[i as int]) == sum_by(cv[i as int].weeks, wk_commits()));
            assert(cv[i as int].weeks == rc.contributions@[i as int].weeks@);
        }
        a = a + wa;
        d = d + wd;
        c = c + wc;
        i = i + 1;
    }
    proof {
        lemma_sum_by_take_all(cv, contrib_adds());
        lemma_sum_by_take_all(cv, contrib_dels());
        lemma_sum_by_take_all(cv, contrib_commits());
    }
    let t = RepoTotals { repo_name: rc.repo_name.clone(), additions: a, deletions: d, commits: c };
    t
}

/// Rows in ascending order of total additions.
pub open spec fn sorted_rows(s: Seq<RepoTotalsV>) -> bool {
    forall|i: int, j: int| 0 <= i < j < s.len() ==> s[i].additions <= s[j].additions
}

/// Insertion keeping ascending order of additions, after every row it does
/// not have to pass: a tie therefore keeps its earlier position, which makes
/// the sort built from this stable.
pub open spec fn stable_insert(s: Seq<RepoTotalsV>, x: RepoTotalsV) -> Seq<RepoTotalsV>
    decreases s.len(),
{
    if s.len() == 0 {
        seq![x]
    } else if s[0].additions <= x.additions {
        seq![s[0]] + stable_insert(s.drop_first(), x)
    } else {
        seq![x] + s
    }
}

/// The rows sorted ascending by total additions, ties in encounter order.
pub open spec fn stable_sort(s: Seq<RepoTotalsV>) -> Seq<RepoTotalsV>
    decreases s.len(),
{
    if s.len() == 0 {
        Seq::empty()
    } else {
        stable_insert(stable_sort(s.drop_last()), s.last())
    }
}

/// Where the insertion lands: just before the first row with strictly more
/// additions.
proof fn lemma_stable_insert_at(s: Seq<RepoTotalsV>, x: RepoTotalsV, p: int)
    requires
        0 <= p <= s.len(),
        forall|j: int| 0 <= j < p ==> s[j].additions <= x.additions,
        p < s.len() ==> s[p].additions > x.additions,
    ensures
        stable_insert(s, x) == s.take(p) + seq![x] + s.skip(p),
    decreases p,
{
    if p == 0 {
        if s.len() == 0 {
            assert(s.take(0) + seq![x] + s.skip(0) =~= seq![x]);
        } else {
            assert(s.take(0) + seq![x] + s.skip(0) =~= seq![x] + s);
        }
    } else {
        let rest = s.drop_first();
        assert(forall|j: int| 0 <= j < p - 1 ==> rest[j].additions <= x.additions) by {
            assert(forall|j: int| 0 <= j < rest.len() ==> rest[j] == s[j + 1]);
        }
        lemma_stable_insert_at(rest, x, p - 1);
        assert(seq![s[0]] + (rest.take(p - 1) + seq![x] + rest.skip(p - 1)) =~= s.take(p) + seq![
            x,
        ] + s.skip(p));
    }
}

/// Insertion adds exactly the new row to the collection of rows.
proof fn lemma_stable_insert_multiset(s: Seq<RepoTotalsV>, x: RepoTotalsV)
    ensures
        stable_insert(s, x).to_multiset() == s.to_multiset().insert(x),
    decreases s.len(),
{
    broadcast use vstd::multiset::group_multiset_axioms;

    Seq::<RepoTotalsV>::empty().to_multiset_ensures();
    if s.len() == 0 {
        assert(s =~= Seq::<RepoTotalsV>::empty());
        assert(seq![x] =~= Seq::<RepoTotalsV>::empty().push(x));
        assert(stable_insert(s, x).to_multiset() == Seq::<RepoTotalsV>::empty().push(
            x,
        ).to_multiset());
        assert(s.to_multiset() == Seq::<RepoTotalsV>::empty().to_multiset());
    } else if s[0].additions <= x.additions {
        let rest = s.drop_first();
        lemma_stable_insert_multiset(rest, x);
        vstd::seq_lib::lemma_multiset_commutative(seq![s[0]], stable_insert(rest, x));
        vstd::seq_lib::lemma_multiset_commutative(seq![s[0]], rest);
        assert(seq![s[0]] + rest =~= s);
        let m1 = stable_insert(s, x).to_multiset();
        let m2 = s.to_multiset().insert(x);
        assert forall|e: RepoTotalsV| true implies m1.count(e) == m2.count(e) by {
            assert(m1.count(e) == seq![s[0]].to_multiset().count(e) + rest.to_multiset().insert(
                x,
            ).count(e));
            assert(m2.count(e) == seq![s[0]].to_multiset().count(e) + rest.to_multiset().count(e)
                + (if e == x {
                1int
            } else {
                0int
            }));
        }
        assert(m1 =~= m2);
    } else {
        vstd::seq_lib::lemma_multiset_commutative(seq![x], s);
        assert(seq![x] =~= Seq::<RepoTotalsV>::empty().push(x));
        assert(seq![x].to_multiset() == Seq::<RepoTotalsV>::empty().push(x).to_multiset());
        s.to_multiset_ensures();
        let m1 = stable_insert(s, x).to_multiset();
        let m2 = s.to_multiset().insert(x);
        assert forall|e: RepoTotalsV| true implies m1.count(e) == m2.count(e) by {
            assert(m1.count(e) == seq![x].to_multiset().count(e) + s.to_multiset().count(e));
            assert(seq![x].to_multiset().count(e) == Multiset::<RepoTotalsV>::empty().insert(
                x,
            ).count(e));
            assert(Multiset::<RepoTotalsV>::empty().count(e) == 0);
        }
        assert(m1 =~= m2);
    }
}

/// Sorting reorders the rows and does nothing else.
pub proof fn lemma_stable_sort_multiset(s: Seq<RepoTotalsV>)
    ensures
        stable_sort(s).to_multiset() == s.to_multiset(),
    decreases s.len(),
{
    if s.len() > 0 {
        let dl = s.drop_last();
        lemma_stable_sort_multiset(dl);
        lemma_stable_insert_multiset(stable_sort(dl), s.last());
        dl.to_multiset_ensures();
        assert(dl.push(s.last()) =~= s);
        assert(s.to_multiset() == dl.push(s.last()).to_multiset());
        assert(dl.push(s.last()).to_multiset() =~= dl.to_multiset().insert(s.last()));
        assert(stable_sort(s) == stable_insert(stable_sort(dl), s.last()));
        assert(stable_insert(stable_sort(dl), s.last()).to_multiset() == stable_sort(
            dl,
        ).to_multiset().insert(s.last()));
        assert(stable_sort(dl).to_multiset() == dl.to_multiset());
    } else {
        assert(s =~= Seq::<RepoTotalsV>::empty());
        assert(stable_sort(s) == s);
    }
}

/// Insertion into a sorted row list keeps it sorted.
proof fn lemma_stable_insert_sorted(s: Seq<RepoTotalsV>, x: RepoTotalsV)
    requires
        sorted_rows(s),
    ensures
        sorted_rows(stable_insert(s, x)),
    decreases s.len(),
{
    broadcast use vstd::multiset::group_multiset_axioms;

    if s.len() == 0 {
    } else if s[0].additions <= x.additions {
        let rest = s.drop_first();
        assert(sorted_rows(rest)) by {
            assert(forall|j: int| 0 <= j < rest.len() ==> rest[j] == s[j + 1]);
        }
        lemma_stable_insert_sorted(rest, x);
        let ins = stable_insert(rest, x);
        lemma_stable_insert_multiset(rest, x);
        ins.to_multiset_ensures();
        rest.to_multiset_ensures();
        assert(forall|k: int| 0 <= k < ins.len() ==> s[0].additions <= #[trigger] ins[k].additions)
            by {
            assert forall|k: int| 0 <= k < ins.len() implies s[0].additions
                <= #[trigger] ins[k].additions by {
                assert(ins.contains(ins[k]));
                assert(ins.to_multiset().count(ins[k]) > 0);
                if ins[k] == x {
                } else {
                    assert(rest.to_multiset().count(ins[k]) > 0);
                    assert(rest.contains(ins[k]));
                    let m = choose|m: int| 0 <= m < rest.len() && rest[m] == ins[k];
                    assert(rest[m] == s[m + 1]);
                }
            }
        }
        assert(forall|k: int|
            0 <= k < (seq![s[0]] + ins).len() ==> (seq![s[0]] + ins)[k] == (if k == 0 {
                s[0]
            } else {
                ins[k - 1]
            }));
    } else {
        assert(forall|k: int|
            0 <= k < (seq![x] + s).len() ==> (seq![x] + s)[k] == (if k == 0 {
                x
            } else {
                s[k - 1]
            }));
    }
}

/// The sort really sorts.
pub proof fn lemma_stable_sort_sorted(s: Seq<RepoTotalsV>)
    ensures
        sorted_rows(stable_sort(s)),
    decreases s.len(),
{
    if s.len() > 0 {
        lemma_stable_sort_sorted(s.drop_last());
        lemma_stable_insert_sorted(stable_sort(s.drop_last()), s.last());
    }
}

/// The views of a row list, in order.
pub open spec fn rows_view(rows: Seq<RepoTotals>) -> Seq<RepoTotalsV> {
    rows.map_values(|t: RepoTotals| t@)
}

fn clone_row(t: &RepoTotals) -> (r: RepoTotals)
    ensures
        r == *t,
{
    RepoTotals {
        repo_name: t.repo_name.clone(),
        additions: t.additions,
        deletions: t.deletions,
        commits: t.commits,
    }
}

/// Puts one row after every row it does not have to pass.
fn insert_row(out: &mut Vec<RepoTotals>, x: RepoTotals)
    ensures
        rows_view(final(out)@) == stable_insert(rows_view(old(out)@), x@),
{
    let ghost s = rows_view(out@);
    let mut p: usize = 0;
    while p < out.len() && out[p].additions <= x.additions
        invariant
            p <= out.len(),
            s == rows_view(out@),
            forall|j: int| 0 <= j < p ==> s[j].additions <= x.additions,
        decreases out.len() - p,
    {
        proof {
            assert(s[p as int] == out@[p as int]@);
        }
        p = p + 1;
    }
    proof {
        if p < out.len() {
            assert(s[p as int] == out@[p as int]@);
        }
        lemma_stable_insert_at(s, x@, p as int);
    }
    out.insert(p, x);
    proof {
        assert(rows_view(out@) =~= s.take(p as int) + seq![x@] + s.skip(p as int));
    }
}

/// Sorts the rows ascending by total additions, stably.
pub fn sort_rows(rows: &Vec<RepoTotals>) -> (out: Vec<RepoTotals>)
    ensures
        rows_view(out@) == stable_sort(rows_view(rows@)),
        sorted_rows(rows_view(out@)),
{
    let mut out: Vec<RepoTotals> = Vec::new();
    let mut i: usize = 0;
    proof {
        assert(rows_view(out@) =~= Seq::<RepoTotalsV>::empty());
        assert(rows_view(rows@).take(0) =~= Seq::<RepoTotalsV>::empty());
    }
    while i < rows.len()
        invariant
            i <= rows.len(),
            rows_view(out@) == stable_sort(rows_view(rows@).take(i as int)),
        decreases rows.len() - i,
    {
        let x = clone_row(&rows[i]);
        proof {
            let rv = rows_view(rows@);
            assert(rv.take(i + 1).drop_last() =~= rv.take(i as int));
            assert(rv.take(i + 1).last() == rv[i as int]);
            assert(rv[i as int] == rows@[i as int]@);
        }
        insert_row(&mut out, x);
        i = i + 1;
    }
    proof {
        assert(rows_view(rows@).take(rows@.len() as int) =~= rows_view(rows@));
        lemma_stable_sort_sorted(rows_view(rows@));
    }
    out
}

/// The row each result aggregates to, result by result.
pub open spec fn rows_of(rs: Seq<RepoContributionsV>) -> Seq<RepoTotalsV> {
    rs.map_values(|r: RepoContributionsV| totals_of(r))
}

/// The aggregated report: one row per result, sorted ascending by total
/// additions with ties in encounter order, and the grand totals over all
/// rows.
#[derive(Debug)]
pub struct Aggregate {
    pub per_repo: Vec<RepoTotals>,
    pub total_additions: i64,
    pub total_deletions: i64,
    pub total_commits: i64,
}

/// Aggregates a batch of results: folds every repository's weeks into its
/// row, sorts the rows ascending by additions (stable), and sums the grand
/// totals. Deterministic in the input sequence and free of side effects.
pub fn aggregate(results: &Vec<RepoContributions>) -> (agg: Aggregate)
    requires
        results_weight(results_view(results@)) <= i64::MAX,
    ensures
        rows_view(agg.per_repo@) == stable_sort(rows_of(results_view(results@))),
        sorted_rows(rows_view(agg.per_repo@)),
        agg.total_additions == sum_by(results_view(results@), result_adds()),
        agg.total_deletions == sum_by(results_view(results@), result_dels()),
        agg.total_commits == sum_by(results_view(results@), result_commits()),
{
    let ghost rv = results_view(results@);
    let mut rows: Vec<RepoTotals> = Vec::new();
    let mut ta: i64 = 0;
    let mut td: i64 = 0;
    let mut tc: i64 = 0;
    let mut i: usize = 0;
    proof {
        assert(rows_view(rows@) =~= Seq::<RepoTotalsV>::empty());
        assert(rows_of(rv.take(0)) =~= Seq::<RepoTotalsV>::empty());
    }
    while i < results.len()
        invariant
            i <= results.len(),
            rv == results_view(results@),
            rv.len() == results@.len(),
            results_weight(rv) <= i64::MAX,
            rows_view(rows@) == rows_of(rv.take(i as int)),
            ta == sum_by(rv.take(i as int), result_adds()),
            td == sum_by(rv.take(i as int), result_dels()),
            tc == sum_by(rv.take(i as int), result_commits()),
        decreases results.len() - i,
    {
        proof {
            assert(rv[i as int] == results@[i as int]@);
            lemma_result_measures(rv);
            lemma_sum_by_element_bound(rv, result_weight(), i as int);
            assert(result_weight()(rv[i as int]) == repo_weight(rv[i as int]));
        }
        let row = repo_totals(&results[i]);
        proof {
            lemma_contrib_measures(rv[i as int].contributions);
            lemma_sum_by_take_step(rv, result_adds(), i as int);
            lemma_sum_by_take_step(rv, result_dels(), i as int);
            lemma_sum_by_take_step(rv, result_commits(), i as int);
            lemma_result_measures(rv.take(i + 1));
            lemma_sum_by_take_bound(rv, result_weight(), i + 1);
            assert(result_adds()(rv[i as int]) == repo_adds(rv[i as int]));
            assert(result_dels()(rv[i as int]) == repo_dels(rv[i as int]));
            assert(result_commits()(rv[i as int]) == repo_commits(rv[i as int]));
        }
        ta = ta + row.additions;
        td = td + row.deletions;
        tc = tc + row.commits;
        let ghost rows_before = rows@;
        let ghost row_v = row@;
        rows.push(row);
        proof {
            assert(row_v == totals_of(rv[i as int]));
            assert(rows_view(rows@) =~= rows_view(rows_before).push(row_v));
            assert(rows_of(rv.take(i + 1)) =~= rows_of(rv.take(i as int)).push(
                totals_of(rv[i as int]),
            ));
            assert(rows_view(rows@) =~= rows_of(rv.take(i + 1)));
        }
        i = i + 1;
    }
    proof {
        assert(rv.take(rv.len() as int) =~= rv);
        lemma_sum_by_take_all(rv, result_adds());
        lemma_sum_by_take_all(rv, result_dels());
        lemma_sum_by_take_all(rv, result_commits());
    }
    let per_repo = sort_rows(&rows);
    Aggregate { per_repo, total_additions: ta, total_deletions: td, total_commits: tc }
}

/// No two rows share a total-additions value.
pub open spec fn distinct_additions(rows: Seq<RepoTotalsV>) -> bool {
    forall|i: int, j: int| 0 <= i < j < rows.len() ==> rows[i].additions != rows[j].additions
}

/// Two sorted row lists made of the same rows are the same list, as long as
/// no two rows tie on additions; a tie is the one case where the order the
/// rows were first encountered in can show through the sort.
proof fn lemma_sorted_unique(a: Seq<RepoTotalsV>, b: Seq<RepoTotalsV>)
    requires
        sorted_rows(a),
        sorted_rows(b),
        a.to_multiset() == b.to_multiset(),
        distinct_additions(a),
    ensures
        a == b,
    decreases a.len(),
{
    a.to_multiset_ensures();
    b.to_multiset_ensures();
    if a.len() == 0 {
        assert(b.len() == 0);
        assert(a =~= b);
    } else {
        assert(b.len() == a.len());
        assert(a.contains(a[0]));
        assert(b.to_multiset().count(a[0]) > 0);
        assert(b.contains(a[0]));
        let kb = choose|k: int| 0 <= k < b.len() && b[k] == a[0];
        assert(b.contains(b[0]));
        assert(a.to_multiset().count(b[0]) > 0);
        assert(a.contains(b[0]));
        let ka = choose|k: int| 0 <= k < a.len() && a[k] == b[0];
        assert(a[0].additions <= a[ka].additions);
        assert(b[0].additions <= b[kb].additions);
        assert(a[0].additions == b[0].additions);
        assert(ka == 0) by {
            if ka > 0 {
                assert(a[0].additions != a[ka].additions);
            }
        }
        assert(b[0] == a[0]);
        let a1 = a.remove(0);
        let b1 = b.remove(0);
        assert(a1.to_multiset() =~= a.to_multiset().remove(a[0]));
        assert(b1.to_multiset() =~= b.to_multiset().remove(b[0]));
        assert(forall|j: int| 0 <= j < a1.len() ==> a1[j] == a[j + 1]);
        assert(forall|j: int| 0 <= j < b1.len() ==> b1[j] == b[j + 1]);
        lemma_sorted_unique(a1, b1);
        assert forall|j: int| 0 <= j < a.len() implies a[j] == b[j] by {
            if j > 0 {
                assert(a[j] == a1[j - 1]);
                assert(b[j] == b1[j - 1]);
                assert(a1[j - 1] == b1[j - 1]);
            }
        }
        assert(a =~= b);
    }
}

/// Aggregation determinism: two batches holding the same results, in
/// whatever orders the concurrent fetches delivered them, carry the same
/// grand totals, and — when no two repositories tie on total additions —
/// sort to the very same rows.
pub proof fn lemma_aggregation_determinism(r1: Seq<RepoContributionsV>, r2: Seq<RepoContributionsV>)
    requires
        r1.to_multiset() == r2.to_multiset(),
        distinct_additions(rows_of(r1)),
    ensures
        sum_by(r1, result_adds()) == sum_by(r2, result_adds()),
        sum_by(r1, result_dels()) == sum_by(r2, result_dels()),
        sum_by(r1, result_commits()) == sum_by(r2, result_commits()),
        stable_sort(rows_of(r1)) == stable_sort(rows_of(r2)),
{
    crate::sums::lemma_sum_by_permutation(r1, r2, result_adds());
    crate::sums::lemma_sum_by_permutation(r1, r2, result_dels());
    crate::sums::lemma_sum_by_permutation(r1, r2, result_commits());
    let to_row = |r: RepoContributionsV| totals_of(r);
    crate::sums::lemma_map_values_permutation(r1, r2, to_row);
    assert(r1.map_values(to_row) =~= rows_of(r1));
    assert(r2.map_values(to_row) =~= rows_of(r2));
    assert(rows_of(r1).to_multiset() == rows_of(r2).to_multiset());
    lemma_stable_sort_multiset(rows_of(r1));
    lemma_stable_sort_multiset(rows_of(r2));
    lemma_stable_sort_sorted(rows_of(r1));
    lemma_stable_sort_sorted(rows_of(r2));
    let key = |t: RepoTotalsV| t.additions;
    assert(forall|i: int, j: int|
        0 <= i < j < rows_of(r1).len() ==> key(rows_of(r1)[i]) != key(rows_of(r1)[j]));
    crate::sums::lemma_distinct_permutation(rows_of(r1), stable_sort(rows_of(r1)), key);
    assert(distinct_additions(stable_sort(rows_of(r1)))) by {
        let s = stable_sort(rows_of(r1));
        assert(forall|i: int, j: int| 0 <= i < j < s.len() ==> key(s[i]) != key(s[j]));
    }
    lemma_sorted_unique(stable_sort(rows_of(r1)), stable_sort(rows_of(r2)));
}

} // verus!
