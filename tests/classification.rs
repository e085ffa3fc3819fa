use careerscout::classify::{determine_difficulty, determine_job_type, extract_job_type, parse_salary, JobType};
use careerscout::jobs::RawJob;

fn raw(description: &str, tags: Option<Vec<&str>>) -> RawJob {
    RawJob {
        id: None,
        position: Some("Engineer".to_string()),
        company: None,
        description: Some(description.to_string()),
        url: None,
        date: None,
        salary: None,
        tags: tags.map(|t| t.into_iter().map(|s| s.to_string()).collect()),
        logo: None,
    }
}

#[test]
fn job_type_tag_beats_text() {
    let job = raw("Great intern opportunity", Some(vec!["dev", "full_time"]));
    assert_eq!(determine_job_type(&job), Some(JobType::FullTime));
}

#[test]
fn job_type_tags_are_case_insensitive() {
    let job = raw("", Some(vec!["Contractor"]));
    assert_eq!(determine_job_type(&job), Some(JobType::Contract));
    let job = raw("", Some(vec!["PART-TIME"]));
    assert_eq!(determine_job_type(&job), Some(JobType::PartTime));
    let job = raw("", Some(vec!["Intern"]));
    assert_eq!(determine_job_type(&job), Some(JobType::Internship));
}

#[test]
fn job_type_from_description_when_tags_silent() {
    let job = raw("This is a contract role", Some(vec!["rust"]));
    assert_eq!(determine_job_type(&job), Some(JobType::Contract));
}

#[test]
fn job_type_seniority_heuristic() {
    let job = raw("We want a senior engineer", None);
    assert_eq!(determine_job_type(&job), Some(JobType::FullTime));
    let job = raw("Nothing to see", None);
    assert_eq!(determine_job_type(&job), None);
}

#[test]
fn text_precedence_order() {
    assert_eq!(extract_job_type("Full-time or part-time"), Some(JobType::FullTime));
    assert_eq!(extract_job_type("Part time, contract possible"), Some(JobType::PartTime));
    assert_eq!(extract_job_type("contractor wanted, freelance ok"), Some(JobType::Contract));
    assert_eq!(extract_job_type("summer internship"), Some(JobType::Internship));
    assert_eq!(extract_job_type("a temp position"), Some(JobType::Temporary));
    assert_eq!(extract_job_type("Freelance designer"), Some(JobType::Freelance));
    assert_eq!(extract_job_type("we offer competitive salary"), Some(JobType::FullTime));
    assert_eq!(extract_job_type("5 years experience"), Some(JobType::FullTime));
    assert_eq!(extract_job_type(""), None);
}

#[test]
fn internship_word_boundaries() {
    assert_eq!(extract_job_type("internal tools team"), None);
    assert_eq!(extract_job_type("contracts manager"), None);
}

#[test]
fn internship_disclaimer_is_suppressed() {
    assert_eq!(extract_job_type("we are not hiring associate/intern roles"), None);
    assert_eq!(
        extract_job_type("not hiring associate/intern, but an intern for summer"),
        Some(JobType::Internship)
    );
}

#[test]
fn job_type_labels() {
    assert_eq!(JobType::FullTime.label(), "Full-time");
    assert_eq!(JobType::PartTime.label(), "Part-time");
    assert_eq!(JobType::Contract.label(), "Contract");
    assert_eq!(JobType::Internship.label(), "Internship");
    assert_eq!(JobType::Temporary.label(), "Temporary");
    assert_eq!(JobType::Freelance.label(), "Freelance");
}

fn as_f64(s: Option<String>) -> Option<f64> {
    s.and_then(|v| v.parse::<f64>().ok())
}

#[test]
fn salary_range() {
    let (lo, hi) = parse_salary("$50,000 - $70,000 a year");
    assert_eq!(lo.as_deref(), Some("50000"));
    assert_eq!(hi.as_deref(), Some("70000"));
    assert_eq!(as_f64(lo), Some(50000.0));
    assert_eq!(as_f64(hi), Some(70000.0));
}

#[test]
fn salary_single_value() {
    let (lo, hi) = parse_salary("$85,000");
    assert_eq!(as_f64(lo), Some(85000.0));
    assert_eq!(as_f64(hi), Some(85000.0));
}

#[test]
fn salary_empty() {
    assert_eq!(parse_salary(""), (None, None));
}

#[test]
fn salary_to_range_and_decimals() {
    let (lo, hi) = parse_salary("$1,234.50 to $2,000");
    assert_eq!(lo.as_deref(), Some("1234.50"));
    assert_eq!(hi.as_deref(), Some("2000"));
}

#[test]
fn salary_without_dollar_sign_is_absent() {
    assert_eq!(parse_salary("competitive"), (None, None));
    assert_eq!(parse_salary("50000"), (None, None));
}

#[test]
fn difficulty_tiers() {
    assert_eq!(determine_difficulty("Docker Tutorial for Beginners"), "beginner");
    assert_eq!(determine_difficulty("Python 101"), "beginner");
    assert_eq!(determine_difficulty("ADVANCED Rust Patterns"), "advanced");
    assert_eq!(determine_difficulty("Become a Git Master"), "advanced");
    assert_eq!(determine_difficulty("Rust Tips"), "intermediate");
    assert_eq!(determine_difficulty("Advanced basics"), "beginner");
}
