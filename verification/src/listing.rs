//! Repository listing: the fold over the paginated listing endpoint. Pages
//! arrive one at a time; each non-empty page is filtered to the repositories
//! the requesting identity actually owns and appended, and the first empty
//! page ends the listing. A non-success status mid-pagination also ends it,
//! keeping what was collected so far.
use vstd::prelude::*;

use crate::types::{Owner, Repo, RepoV};

verus! {

/// Whether a listed repository belongs to the given owner login.
pub open spec fn owned_by(r: RepoV, user: Seq<char>) -> bool {
    r.owner_login == user
}

/// The views of one page's entries, in order.
pub open spec fn page_view(page: Seq<Repo>) -> Seq<RepoV> {
    page.map_values(|r: Repo| r@)
}

/// The pages of a listing, each as the sequence of its entries.
pub open spec fn pages_view(pages: Seq<Vec<Repo>>) -> Seq<Seq<Repo>> {
    pages.map_values(|p: Vec<Repo>| p@)
}

/// Ownership by `user`, as a predicate on entry views.
pub open spec fn owned_pred(user: Seq<char>) -> spec_fn(RepoV) -> bool {
    |r: RepoV| owned_by(r, user)
}

/// One page filtered to the entries owned by `user`, in page order.
pub open spec fn owned_of_page(page: Seq<Repo>, user: Seq<char>) -> Seq<RepoV> {
    page_view(page).filter(owned_pred(user))
}

/// Everything the listing yields for a given sequence of pages: the
/// owner-filtered entries of every page before the first empty one,
/// concatenated in page order.
pub open spec fn collected_listing(pages: Seq<Seq<Repo>>, user: Seq<char>) -> Seq<RepoV>
    decreases pages.len(),
{
    if pages.len() == 0 {
        Seq::empty()
    } else if pages[0].len() == 0 {
        Seq::empty()
    } else {
        owned_of_page(pages[0], user) + collected_listing(pages.drop_first(), user)
    }
}

proof fn lemma_filter_push(s: Seq<RepoV>, x: RepoV, pred: spec_fn(RepoV) -> bool)
    ensures
        s.push(x).filter(pred) == if pred(x) {
            s.filter(pred).push(x)
        } else {
            s.filter(pred)
        },
{
    reveal(Seq::filter);
    assert(s.push(x).drop_last() =~= s);
    assert(s.push(x).last() == x);
}

/// Appends to `acc` the entries of one fetched page owned by `username`, and
/// says whether pagination continues: it does exactly when the page was
/// non-empty.
pub fn list_step(acc: &mut Vec<Repo>, page: Vec<Repo>, username: &str) -> (more: bool)
    ensures
        page_view(final(acc)@) == page_view(old(acc)@) + owned_of_page(page@, username@),
        more == (page@.len() > 0),
{
    let more = page.len() > 0;
    let ghost acc0 = acc@;
    let ghost page0 = page@;
    let mut i: usize = 0;
    while i < page.len()
        invariant
            i <= page.len(),
            page@ == page0,
            page_view(acc@) =~= page_view(acc0) + owned_of_page(page0.take(i as int), username@),
        decreases page.len() - i,
    {
        let ghost prefix = page0.take(i as int);
        let ghost x = page0[i as int]@;
        let ghost acc_before = acc@;
        let owned = owner_matches(&page[i], username);
        proof {
            assert(page_view(page0.take(i + 1)) =~= page_view(prefix).push(x));
            lemma_filter_push(page_view(prefix), x, owned_pred(username@));
            assert(owned_pred(username@)(x) == owned_by(x, username@));
        }
        if owned {
            let r = copy_repo(&page[i]);
            acc.push(r);
            proof {
                assert(owned_of_page(page0.take(i + 1), username@) == owned_of_page(
                    prefix,
                    username@,
                ).push(x));
                assert(page_view(acc@) =~= page_view(acc_before).push(x));
                assert(page_view(acc_before).push(x) =~= page_view(acc0) + owned_of_page(
                    prefix,
                    username@,
                ).push(x));
            }
        } else {
            proof {
                assert(owned_of_page(page0.take(i + 1), username@) == owned_of_page(
                    prefix,
                    username@,
                ));
            }
        }
        proof {
            assert(page_view(acc@) =~= page_view(acc0) + owned_of_page(
                page0.take(i + 1),
                username@,
            ));
        }
        i = i + 1;
    }
    proof {
        assert(page0.take(page0.len() as int) =~= page0);
    }
    more
}

/// One answer of the listing endpoint, classified: a page of entries, or a
/// non-success status.
#[derive(Debug)]
pub enum PageSignal {
    Page(Vec<Repo>),
    Failure(u16),
}

/// Applies one endpoint answer to the accumulator. A non-success status ends
/// the listing at once and keeps what was collected so far — a design
/// choice, not a crash; a page is filtered and appended, and an empty page
/// ends the listing normally.
pub fn listing_step(acc: &mut Vec<Repo>, signal: PageSignal, username: &str) -> (more: bool)
    ensures
        match signal {
            PageSignal::Page(p) => {
                &&& page_view(final(acc)@) == page_view(old(acc)@) + owned_of_page(p@, username@)
                &&& more == (p@.len() > 0)
            },
            PageSignal::Failure(_) => {
                &&& final(acc)@ == old(acc)@
                &&& more == false
            },
        },
{
    match signal {
        PageSignal::Page(p) => list_step(acc, p, username),
        PageSignal::Failure(_) => false,
    }
}

/// Whether this entry's owner login is the requesting identity. Entries that
/// fail this test are organization repositories the identity merely
/// contributes to, and are excluded.
pub fn owner_matches(r: &Repo, username: &str) -> (b: bool)
    ensures
        b == owned_by(r@, username@),
{
    str_eq(r.owner.username.as_str(), username)
}

/// Compares two string slices by value.
fn str_eq(a: &str, b: &str) -> (r: bool)
    ensures
        r == (a@ == b@),
{
    let a_owned: String = a.to_owned();
    let b_owned: String = b.to_owned();
    a_owned == b_owned
}

fn copy_repo(r: &Repo) -> (out: Repo)
    ensures
        out@ == r@,
{
    Repo { name: r.name.clone(), owner: Owner { username: r.owner.username.clone() } }
}

/// Pagination termination: run against any sequence of pages ending in an
/// empty page, the listing returns exactly the owner-filtered entries of the
/// non-empty pages before it, concatenated in page order. The pages stand
/// for the successive answers of the listing endpoint; a caller that pages
/// through a live endpoint makes the same `list_step` calls one page at a
/// time.
pub fn list_owned_repos(pages: &Vec<Vec<Repo>>, username: &str) -> (out: Vec<Repo>)
    ensures
        page_view(out@) == collected_listing(pages_view(pages@), username@),
{
    let mut out: Vec<Repo> = Vec::new();
    let mut i: usize = 0;
    proof {
        assert(pages_view(pages@).skip(0) =~= pages_view(pages@));
        assert(page_view(out@) =~= Seq::<RepoV>::empty());
        assert(page_view(out@) + collected_listing(pages_view(pages@), username@)
            =~= collected_listing(pages_view(pages@), username@));
    }
    loop
        invariant
            i <= pages.len(),
            page_view(out@) + collected_listing(pages_view(pages@).skip(i as int), username@)
                =~= collected_listing(pages_view(pages@), username@),
        decreases pages.len() - i,
    {
        let ghost remaining = pages_view(pages@).skip(i as int);
        if i >= pages.len() {
            proof {
                assert(remaining =~= Seq::<Seq<Repo>>::empty());
                assert(page_view(out@) + collected_listing(remaining, username@) =~= page_view(
                    out@,
                ));
            }
            return out;
        }
        let ghost out0 = out@;
        let page = copy_page(&pages[i]);
        proof {
            assert(remaining[0] == pages@[i as int]@);
            assert(remaining.drop_first() =~= pages_view(pages@).skip(i + 1));
            assert(page_view(page@) == page_view(remaining[0]));
            assert(owned_of_page(page@, username@) == owned_of_page(remaining[0], username@));
        }
        let more = list_step(&mut out, page, username);
        if !more {
            proof {
                reveal(Seq::filter);
                assert(page_view(page@) =~= Seq::<RepoV>::empty());
                assert(owned_of_page(page@, username@) =~= Seq::<RepoV>::empty());
                assert(page_view(out@) =~= page_view(out0));
                assert(collected_listing(remaining, username@) =~= Seq::<RepoV>::empty());
                assert(page_view(out0) + collected_listing(remaining, username@) =~= page_view(
                    out0,
                ));
            }
            return out;
        }
        proof {
            assert(collected_listing(remaining, username@) == owned_of_page(
                remaining[0],
                username@,
            ) + collected_listing(remaining.drop_first(), username@));
            assert(page_view(out@) + collected_listing(remaining.drop_first(), username@) =~= (
            page_view(out0) + owned_of_page(page@, username@)) + collected_listing(
                remaining.drop_first(),
                username@,
            ));
        }
        i = i + 1;
    }
}

/// Copies one fetched page entry by entry.
fn copy_page(page: &Vec<Repo>) -> (out: Vec<Repo>)
    ensures
        page_view(out@) == page_view(page@),
{
    let mut out: Vec<Repo> = Vec::new();
    let mut i: usize = 0;
    while i < page.len()
        invariant
            i <= page.len(),
            out@.len() == i,
            forall|j: int| 0 <= j < i ==> out@[j]@ == page@[j]@,
        decreases page.len() - i,
    {
        let r = copy_repo(&page[i]);
        out.push(r);
        i = i + 1;
    }
    proof {
        assert(page_view(out@) =~= page_view(page@));
    }
    out
}

} // verus!
