use careerscout::jobs::{Job, RawJob};
use careerscout::recency::sort_by_recency;
use careerscout::search::{JobSearch, SearchAction, SearchStage};

fn record(position: &str, description: &str, date: Option<&str>) -> RawJob {
    RawJob {
        id: None,
        position: Some(position.to_string()),
        company: None,
        description: Some(description.to_string()),
        url: None,
        date: date.map(|d| d.to_string()),
        salary: None,
        tags: None,
        logo: None,
    }
}

fn feed(n: usize) -> Vec<RawJob> {
    let mut f = vec![record("meta", "", None)];
    for i in 0..n {
        f.push(record(&format!("Rust Developer {}", i), "remote team", None));
    }
    f
}

fn copy_feed(f: &Vec<RawJob>) -> Vec<RawJob> {
    f.iter()
        .map(|r| RawJob {
            id: r.id.clone(),
            position: r.position.clone(),
            company: r.company.clone(),
            description: r.description.clone(),
            url: r.url.clone(),
            date: r.date.clone(),
            salary: r.salary.clone(),
            tags: r.tags.clone(),
            logo: r.logo.clone(),
        })
        .collect()
}

fn run(search: &mut JobSearch, f: &Vec<RawJob>) {
    loop {
        match search.next_action() {
            SearchAction::LookUpCache => search.on_cache(None),
            SearchAction::FetchJobs => search.on_feed(Some(copy_feed(f))),
            SearchAction::StoreInCache => search.on_stored(),
            SearchAction::Done => break,
        }
    }
}


#[test]
fn limit_invariant_for_several_limits() {
    let f = feed(20);
    for limit in [0u32, 1, 5, 100] {
        for location in ["", "Berlin"] {
            for remote in [None, Some(true)] {
                let mut s = JobSearch::new("trending: rust", limit, location, remote, None);
                run(&mut s, &f);
                assert!(s.results().len() <= limit as usize);
                let mut s = JobSearch::new("rust", limit, location, remote, None);
                run(&mut s, &f);
                assert!(s.results().len() <= limit as usize);
                assert_eq!(s.results().len(), (limit as usize).min(20));
            }
        }
    }
}

#[test]
fn location_backfill_relabels_general_results() {
    let f = feed(3);
    let mut s = JobSearch::new("rust", 5, " Berlin ", None, None);
    assert_eq!(s.stage, SearchStage::CacheLookup);
    s.on_cache(None);
    assert_eq!(s.stage, SearchStage::LocationPass);
    assert_eq!(s.location, "Berlin");
    run(&mut s, &f);
    let jobs = s.results();
    assert_eq!(jobs.len(), 3);
    for j in jobs {
        assert_eq!(j.location, "Remote (Worldwide, including Berlin)");
        assert!(j.location.contains("Worldwide, including Berlin"));
    }
}

#[test]
fn location_hits_come_first_then_general() {
    let mut f = feed(2);
    f.push(record("Rust Engineer", "berlin office", None));
    let mut s = JobSearch::new("rust", 10, "Berlin", None, None);
    run(&mut s, &f);
    let jobs = s.results();
    assert_eq!(jobs[0].location, "Berlin (Remote)");
    assert_eq!(jobs[0].title, "Rust Engineer");
    assert_eq!(jobs.len(), 4);
    assert_eq!(jobs[1].location, "Remote");
}

#[test]
fn full_location_pass_skips_general() {
    let mut f = feed(0);
    f.push(record("Rust Engineer", "berlin", None));
    let mut s = JobSearch::new("rust", 1, "Berlin", None, None);
    s.on_cache(None);
    s.on_feed(Some(f));
    assert_eq!(s.stage, SearchStage::StoreResults);
    assert_eq!(s.next_action(), SearchAction::StoreInCache);
    s.on_stored();
    assert_eq!(s.next_action(), SearchAction::Done);
    assert_eq!(s.results().len(), 1);
}

#[test]
fn upstream_failure_degrades_to_empty() {
    let mut s = JobSearch::new("rust", 5, "Berlin", None, None);
    s.on_cache(None);
    s.on_feed(None);
    assert_eq!(s.stage, SearchStage::GeneralPass);
    s.on_feed(None);
    assert_eq!(s.stage, SearchStage::Finished);
    assert!(s.results().is_empty());
}

#[test]
fn zero_limit_plain_search_fetches_nothing() {
    let mut s = JobSearch::new("rust", 0, "", None, None);
    assert_eq!(s.next_action(), SearchAction::LookUpCache);
    s.on_cache(None);
    assert_eq!(s.next_action(), SearchAction::Done);
    let mut s = JobSearch::new("rust", 0, "", Some(true), None);
    s.on_cache(None);
    assert_eq!(s.next_action(), SearchAction::FetchJobs);
}

#[test]
fn search_carries_cache_key() {
    let s = JobSearch::new("Rust  Dev", 10, "", Some(false), Some("Contract"));
    assert_eq!(s.cache_key, "jobs_rust__dev_10__false_contract");
}

#[test]
fn trending_search_sorts_by_recency() {
    let f = vec![
        record("meta", "", None),
        record("Rust B", "", Some("2024-01-01T00:00:00Z")),
        record("Rust old", "", Some("2023-01-01T00:00:00Z")),
        record("Rust nodate", "", None),
        record("Rust A", "", Some("2024-01-01T00:00:00+00:00")),
        record("Rust new", "", Some("2024-06-01T00:00:00Z")),
        record("Rust bad", "", Some("yesterday")),
    ];
    let mut s = JobSearch::new("trending: rust", 10, "", None, None);
    run(&mut s, &f);
    let titles: Vec<&str> = s.results().iter().map(|j| j.title.as_str()).collect();
    assert_eq!(titles, vec!["Rust new", "Rust A", "Rust B", "Rust old", "Rust bad", "Rust nodate"]);
}

fn listing(title: &str, date: Option<&str>) -> Job {
    Job {
        id: title.to_string(),
        title: title.to_string(),
        employer_name: String::new(),
        location: "Remote".to_string(),
        description: String::new(),
        apply_url: String::new(),
        salary_min: None,
        salary_max: None,
        date_posted: date.map(|d| d.to_string()),
        remote: true,
        job_type: None,
        employer_logo: None,
    }
}

#[test]
fn trending_sort_ties_by_title() {
    let jobs = vec![
        listing("zeta", Some("2024-02-02T00:00:00Z")),
        listing("alpha", None),
        listing("beta", Some("2024-02-02T00:00:00Z")),
        listing("Zulu", None),
        listing("alpha", Some("2024-02-02T00:00:00Z")),
    ];
    let sorted = sort_by_recency(jobs);
    let titles: Vec<(&str, bool)> = sorted.iter().map(|j| (j.title.as_str(), j.date_posted.is_some())).collect();
    assert_eq!(
        titles,
        vec![("alpha", true), ("beta", true), ("zeta", true), ("Zulu", false), ("alpha", false)]
    );
}

#[test]
fn sort_of_nothing_is_nothing() {
    assert!(sort_by_recency(Vec::new()).is_empty());
}

#[test]
fn cache_hit_answers_without_fetching() {
    let mut s = JobSearch::new("rust", 2, "Berlin", None, None);
    assert_eq!(s.next_action(), SearchAction::LookUpCache);
    s.on_cache(Some(vec![listing("a", None), listing("b", None), listing("c", None)]));
    assert_eq!(s.next_action(), SearchAction::Done);
    let titles: Vec<&str> = s.results().iter().map(|j| j.title.as_str()).collect();
    assert_eq!(titles, vec!["a", "b"]);
}

#[test]
fn empty_results_are_not_stored() {
    let f = feed(0);
    let mut s = JobSearch::new("rust", 5, "", None, None);
    s.on_cache(None);
    s.on_feed(Some(f));
    assert_eq!(s.next_action(), SearchAction::Done);
    assert!(s.results().is_empty());
}

#[test]
fn trending_sort_keeps_order_of_identical_ranks() {
    let mut first = listing("same", Some("2024-02-02T00:00:00Z"));
    first.id = "first".to_string();
    let mut second = listing("same", Some("2024-02-02T00:00:00+00:00"));
    second.id = "second".to_string();
    let sorted = sort_by_recency(vec![listing("older", Some("2020-01-01T00:00:00Z")), first, second]);
    let ids: Vec<&str> = sorted.iter().map(|j| j.id.as_str()).collect();
    assert_eq!(ids, vec!["first", "second", "older"]);
}
