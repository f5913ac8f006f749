use ghloc::listing::{list_owned_repos, list_step, listing_step, owner_matches, PageSignal};
use ghloc::types::{Owner, Repo};

fn repo(name: &str, owner: &str) -> Repo {
    Repo { name: name.to_owned(), owner: Owner { username: owner.to_owned() } }
}

#[test]
fn owner_filter_distinguishes_logins() {
    assert!(owner_matches(&repo("r", "me"), "me"));
    assert!(!owner_matches(&repo("r", "org"), "me"));
}

#[test]
fn step_appends_owned_entries_and_continues() {
    let mut acc = Vec::new();
    let page = vec![repo("mine", "me"), repo("theirs", "org"), repo("also-mine", "me")];
    let more = list_step(&mut acc, page, "me");
    assert!(more);
    let names: Vec<&str> = acc.iter().map(|r| r.name.as_str()).collect();
    assert_eq!(names, vec!["mine", "also-mine"]);
}

#[test]
fn step_on_empty_page_stops() {
    let mut acc = vec![repo("kept", "me")];
    let more = list_step(&mut acc, Vec::new(), "me");
    assert!(!more);
    assert_eq!(acc.len(), 1);
}

#[test]
fn listing_concatenates_pages_until_first_empty() {
    let pages = vec![
        vec![repo("a", "me"), repo("x", "org")],
        vec![repo("b", "me")],
        Vec::new(),
        vec![repo("ignored", "me")],
    ];
    let out = list_owned_repos(&pages, "me");
    let names: Vec<&str> = out.iter().map(|r| r.name.as_str()).collect();
    assert_eq!(names, vec!["a", "b"]);
}

#[test]
fn failure_mid_pagination_keeps_collected_entries() {
    let mut acc = Vec::new();
    let more = listing_step(
        &mut acc,
        PageSignal::Page(vec![repo("a", "me"), repo("b", "me")]),
        "me",
    );
    assert!(more);
    let more = listing_step(&mut acc, PageSignal::Failure(401), "me");
    assert!(!more);
    let names: Vec<&str> = acc.iter().map(|r| r.name.as_str()).collect();
    assert_eq!(names, vec!["a", "b"]);
}

#[test]
fn listing_of_no_pages_is_empty() {
    let pages: Vec<Vec<Repo>> = Vec::new();
    let out = list_owned_repos(&pages, "me");
    assert!(out.is_empty());
}
