//! Data model: repositories as listed, contributor statistics as decoded from
//! the remote endpoint, and the persisted credential record. Each executable
//! type has a mathematical view that the contracts speak of.
use vstd::prelude::*;

verus! {

/// One repository as returned by the listing endpoint.
#[derive(Debug)]
pub struct Repo {
    pub name: String,
    pub owner: Owner,
}

/// The account that owns a repository.
#[derive(Debug)]
pub struct Owner {
    pub username: String,
}

/// Mathematical view of a listed repository: its name and its owner's login.
pub struct RepoV {
    pub name: Seq<char>,
    pub owner_login: Seq<char>,
}

impl View for Repo {
    type V = RepoV;

    open spec fn view(&self) -> RepoV {
        RepoV { name: self.name@, owner_login: self.owner.username@ }
    }
}

/// The decoded body of a successful contributor-statistics response.
pub type Contributions = Vec<Contribution>;

/// One contributor's activity on one repository.
#[derive(Debug)]
pub struct Contribution {
    pub total: i64,
    pub weeks: Vec<Week>,
    pub author: Author,
}

/// The author of a contribution; only the login matters here.
#[derive(Debug)]
pub struct Author {
    pub login: String,
}

/// One week of activity: week start timestamp, additions, deletions, commits.
#[derive(Debug, Clone, Copy, PartialEq, Eq, Structural)]
pub struct Week {
    pub w: i64,
    pub a: i64,
    pub d: i64,
    pub c: i64,
}

/// Mathematical view of one contributor record.
pub struct ContributionV {
    pub total: i64,
    pub weeks: Seq<Week>,
    pub login: Seq<char>,
}

impl View for Contribution {
    type V = ContributionV;

    open spec fn view(&self) -> ContributionV {
        ContributionV { total: self.total, weeks: self.weeks@, login: self.author.login@ }
    }
}

/// The views of a decoded response body, record by record.
pub open spec fn contributions_view(cs: Seq<Contribution>) -> Seq<ContributionV> {
    cs.map_values(|c: Contribution| c@)
}

/// The terminal result of investigating one repository: its name together
/// with the contributor records obtained, possibly none.
#[derive(Debug)]
pub struct RepoContributions {
    pub repo_name: String,
    pub contributions: Contributions,
}

/// Mathematical view of one repository's terminal result.
pub struct RepoContributionsV {
    pub repo_name: Seq<char>,
    pub contributions: Seq<ContributionV>,
}

impl View for RepoContributions {
    type V = RepoContributionsV;

    open spec fn view(&self) -> RepoContributionsV {
        RepoContributionsV {
            repo_name: self.repo_name@,
            contributions: contributions_view(self.contributions@),
        }
    }
}

impl RepoContributions {
    pub fn new(repo_name: String, contributions: Contributions) -> (r: Self)
        ensures
            r@.repo_name == repo_name@,
            r@.contributions == contributions_view(contributions@),
    {
        Self { repo_name, contributions }
    }

    pub fn empty(repo_name: String) -> (r: Self)
        ensures
            r@.repo_name == repo_name@,
            r@.contributions =~= Seq::<ContributionV>::empty(),
    {
        let r = Self { repo_name, contributions: Vec::new() };
        proof {
            assert(r@.contributions =~= Seq::<ContributionV>::empty());
        }
        r
    }
}

/// Per-repository totals paired with the owning login.
#[derive(Debug)]
pub struct RepoSummary {
    pub login: String,
    pub name: String,
    pub total_commits: i64,
    pub total_additions: i64,
    pub total_deletions: i64,
}

/// Mathematical view of a per-repository summary row.
pub struct RepoSummaryV {
    pub login: Seq<char>,
    pub name: Seq<char>,
    pub total_commits: i64,
    pub total_additions: i64,
    pub total_deletions: i64,
}

impl View for RepoSummary {
    type V = RepoSummaryV;

    open spec fn view(&self) -> RepoSummaryV {
        RepoSummaryV {
            login: self.login@,
            name: self.name@,
            total_commits: self.total_commits,
            total_additions: self.total_additions,
            total_deletions: self.total_deletions,
        }
    }
}

/// The persisted credential record: an optional username and token.
#[derive(Debug)]
pub struct Config {
    pub username: Option<String>,
    pub token: Option<String>,
}

impl Default for Config {
    fn default() -> (c: Self)
        ensures
            c.username is None,
            c.token is None,
    {
        Self { username: None, token: None }
    }
}

} // verus!
