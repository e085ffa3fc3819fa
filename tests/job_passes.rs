use careerscout::jobs::{filter_remoteok_jobs, filter_remoteok_jobs_with_location, RawJob};
use careerscout::query::normalize_query;

fn record(id: Option<&str>, position: &str, description: &str) -> RawJob {
    RawJob {
        id: id.map(|s| s.to_string()),
        position: Some(position.to_string()),
        company: Some("Acme".to_string()),
        description: Some(description.to_string()),
        url: Some("/remote-jobs/123".to_string()),
        date: Some("2024-05-01T10:00:00+00:00".to_string()),
        salary: None,
        tags: None,
        logo: Some("acme.png".to_string()),
    }
}

fn sentinel() -> RawJob {
    RawJob {
        id: None,
        position: None,
        company: None,
        description: Some("legal notice mentioning rust".to_string()),
        url: None,
        date: None,
        salary: None,
        tags: None,
        logo: None,
    }
}

#[test]
fn general_pass_skips_sentinel_and_matches_all_words() {
    let feed = vec![
        sentinel(),
        record(Some("7"), "Rust Developer", "Build services"),
        record(None, "Python Developer", "Scripts"),
        record(None, "Backend Engineer", "We use Rust and Go; developer tooling"),
    ];
    let q = normalize_query("rust developer");
    let jobs = filter_remoteok_jobs(&feed, &q, 10, None);
    assert_eq!(jobs.len(), 2);
    assert_eq!(jobs[0].id, "7");
    assert_eq!(jobs[0].title, "Rust Developer");
    assert_eq!(jobs[0].employer_name, "Acme");
    assert_eq!(jobs[0].location, "Remote");
    assert!(jobs[0].remote);
    assert_eq!(jobs[0].apply_url, "https://remoteok.com/remote-jobs/123");
    assert_eq!(jobs[0].employer_logo.as_deref(), Some("https://remoteok.com/assets/img/jobs/acme.png"));
    assert_eq!(jobs[1].id, "remoteok_1");
    assert_eq!(jobs[1].title, "Backend Engineer");
}

#[test]
fn general_pass_keeps_absolute_links() {
    let mut r = record(None, "Rust Developer", "");
    r.url = Some("https://example.com/apply".to_string());
    r.logo = Some("http://cdn.example.com/l.png".to_string());
    let feed = vec![sentinel(), r];
    let jobs = filter_remoteok_jobs(&feed, &normalize_query("rust"), 10, None);
    assert_eq!(jobs[0].apply_url, "https://example.com/apply");
    assert_eq!(jobs[0].employer_logo.as_deref(), Some("http://cdn.example.com/l.png"));
    assert_eq!(jobs[0].id, "remoteok_0");
}

#[test]
fn general_pass_empty_query_matches_nothing() {
    let feed = vec![sentinel(), record(None, "Rust Developer", "")];
    assert!(filter_remoteok_jobs(&feed, &normalize_query("   "), 10, None).is_empty());
    assert!(filter_remoteok_jobs(&vec![], &normalize_query("rust"), 10, None).is_empty());
}

#[test]
fn general_pass_respects_limit() {
    let feed = vec![
        sentinel(),
        record(None, "Rust A", ""),
        record(None, "Rust B", ""),
        record(None, "Rust C", ""),
    ];
    let q = normalize_query("rust");
    for limit in [0usize, 1, 2, 5, 100] {
        let jobs = filter_remoteok_jobs(&feed, &q, limit, None);
        assert_eq!(jobs.len(), limit.min(3));
    }
}

#[test]
fn trending_matches_any_meaningful_word() {
    let feed = vec![
        sentinel(),
        record(None, "Senior Go Engineer", "kubernetes"),
        record(None, "Designer", "figma work"),
    ];
    let q = normalize_query("trending: kubernetes remote jobs");
    let jobs = filter_remoteok_jobs(&feed, &q, 10, None);
    assert_eq!(jobs.len(), 1);
    assert_eq!(jobs[0].title, "Senior Go Engineer");
}

#[test]
fn trending_falls_back_to_short_words() {
    let feed = vec![sentinel(), record(None, "Go Engineer", ""), record(None, "Designer", "")];
    let q = normalize_query("trending go jobs");
    let jobs = filter_remoteok_jobs(&feed, &q, 10, None);
    assert_eq!(jobs.len(), 1);
    assert_eq!(jobs[0].title, "Go Engineer");
}

#[test]
fn trending_with_only_filler_matches_nothing() {
    let feed = vec![sentinel(), record(None, "Remote jobs", "remote work")];
    assert!(filter_remoteok_jobs(&feed, &normalize_query("trending: remote jobs"), 10, None).is_empty());
}

#[test]
fn job_type_filter_with_synonyms() {
    let mut freelance = record(None, "Rust Developer", "freelance gig");
    freelance.tags = Some(vec!["rust".to_string()]);
    let mut full = record(None, "Rust Lead", "");
    full.tags = Some(vec!["full-time".to_string()]);
    let untyped = record(None, "Rust Helper", "nothing");
    let feed = vec![sentinel(), freelance, full, untyped];
    let q = normalize_query("rust");
    let contract = filter_remoteok_jobs(&feed, &q, 10, Some("Contract"));
    assert_eq!(contract.len(), 1);
    assert_eq!(contract[0].job_type.as_deref(), Some("Freelance"));
    let full_time = filter_remoteok_jobs(&feed, &q, 10, Some("full-time"));
    assert_eq!(full_time.len(), 1);
    assert_eq!(full_time[0].title, "Rust Lead");
    assert_eq!(full_time[0].job_type.as_deref(), Some("Full-time"));
}

#[test]
fn general_pass_salary_from_description() {
    let r = record(None, "Rust Developer", "Pay: $90,000 - $120,000 a year");
    let feed = vec![sentinel(), r];
    let jobs = filter_remoteok_jobs(&feed, &normalize_query("rust"), 10, None);
    assert_eq!(jobs[0].salary_min.as_deref(), Some("90000"));
    assert_eq!(jobs[0].salary_max.as_deref(), Some("120000"));
}

#[test]
fn general_pass_salary_field_first() {
    let mut r = record(None, "Rust Developer", "Pay: $90,000 - $120,000 a year");
    r.salary = Some("$60,000".to_string());
    let feed = vec![sentinel(), r];
    let jobs = filter_remoteok_jobs(&feed, &normalize_query("rust"), 10, None);
    assert_eq!(jobs[0].salary_min.as_deref(), Some("60000"));
    assert_eq!(jobs[0].salary_max.as_deref(), Some("60000"));
}

#[test]
fn location_pass_needs_title_words_and_location() {
    let feed = vec![
        sentinel(),
        record(None, "Rust Engineer", "Office in Berlin"),
        record(None, "Rust Engineer", "Fully distributed"),
        record(None, "Engineer", "Rust in Berlin"),
    ];
    let jobs = filter_remoteok_jobs_with_location(&feed, "rust", 10, "Berlin, Germany", None);
    assert_eq!(jobs.len(), 1);
    assert_eq!(jobs[0].location, "Berlin, Germany (Remote)");
    assert_eq!(jobs[0].id, "remoteok_loc_0");
}

#[test]
fn location_pass_salary_field_or_description() {
    let r = record(None, "Rust Engineer", "Berlin, $90,000 - $100,000 a year");
    let feed = vec![sentinel(), r];
    let jobs = filter_remoteok_jobs_with_location(&feed, "rust", 10, "berlin", None);
    assert_eq!(jobs[0].salary_min.as_deref(), Some("90000"));
    assert_eq!(jobs[0].salary_max.as_deref(), Some("100000"));
    let mut r = record(None, "Rust Engineer", "Berlin, $90,000 - $100,000");
    r.salary = Some("$70,000 - $80,000".to_string());
    let feed = vec![sentinel(), r];
    let jobs = filter_remoteok_jobs_with_location(&feed, "rust", 10, "berlin", None);
    assert_eq!(jobs[0].salary_min.as_deref(), Some("70000"));
    assert_eq!(jobs[0].salary_max.as_deref(), Some("80000"));
}
#[test]
fn trending_word_length_counts_bytes() {
    let feed = vec![sentinel(), record(None, "Café éé", ""), record(None, "ab team", "")];
    let jobs = filter_remoteok_jobs(&feed, &normalize_query("trending: éé ab"), 10, None);
    assert_eq!(jobs.len(), 1);
    assert_eq!(jobs[0].title, "Café éé");
}

#[test]
fn words_split_on_unicode_white_space() {
    let feed = vec![sentinel(), record(None, "Rust Developer", "")];
    let jobs = filter_remoteok_jobs(&feed, &normalize_query("rust\u{2003}developer"), 10, None);
    assert_eq!(jobs.len(), 1);
}
