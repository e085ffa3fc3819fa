use careerscout::query::{job_cache_key, normalize_query};

#[test]
fn trending_parse_colon_prefix() {
    let q = normalize_query("trending: rust");
    assert!(q.trending);
    assert_eq!(q.term, "rust");
}

#[test]
fn trending_parse_space_prefix() {
    let q = normalize_query("trending rust");
    assert!(q.trending);
    assert_eq!(q.term, "rust");
}

#[test]
fn trending_parse_plain_query() {
    let q = normalize_query("rust jobs");
    assert!(!q.trending);
    assert_eq!(q.term, "rust jobs");
}

#[test]
fn trending_parse_is_case_insensitive() {
    let q = normalize_query("Trending:   Rust Async ");
    assert!(q.trending);
    assert_eq!(q.term, "rust async");
}

#[test]
fn key_determinism_case_and_whitespace() {
    let a = job_cache_key("  Rust Developer ", 10, " Berlin ", false, None);
    let b = job_cache_key("rust developer", 10, "berlin", false, None);
    assert_eq!(a, b);
    assert_eq!(a, "jobs_rust_developer_10_berlin_false_");
}

#[test]
fn key_holds_every_field() {
    let k = job_cache_key("trending: Rust", 5, "New York", true, Some("Full Time"));
    assert_eq!(k, "jobs_rust_5_new_york_true_full_time");
}

#[test]
fn key_differs_by_limit() {
    assert_ne!(
        job_cache_key("rust", 5, "", false, None),
        job_cache_key("rust", 6, "", false, None)
    );
}

#[test]
fn key_with_largest_limit() {
    assert_eq!(job_cache_key("rust", u32::MAX, "", false, None), "jobs_rust_4294967295__false_");
    assert_eq!(job_cache_key("rust", 0, "", false, None), "jobs_rust_0__false_");
}

#[test]
fn unicode_white_space_is_trimmed() {
    let q = normalize_query("\u{3000}trending:\u{00A0}Rust\u{2003}");
    assert!(q.trending);
    assert_eq!(q.term, "rust");
}
