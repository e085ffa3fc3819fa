//! Classification of free text: employment type, salary range and difficulty.

use vstd::prelude::*;
use crate::foreign::{
    chars_of, string_of, lowercase, lower_of, capture_group, regex_capture, match_starts,
    regex_match_starts,
};
use crate::text::{contains, contains_exec, replace_all, replace_all_exec, slice_of, chars_eq};
use crate::jobs::RawJob;

verus! {

/// Full-time wording: the term itself and the usual signals of a permanent role.
pub const FULL_TIME_PATTERN: &'static str = r"\bfull(?:-|\s)?time\b|fully remote position|competitive salary|benefits package|[\d+]\s*years'? experience";

pub const PART_TIME_PATTERN: &'static str = r"\bpart(?:-|\s)?time\b";

pub const CONTRACT_PATTERN: &'static str = r"\bcontract(?:or)?\b";

pub const INTERNSHIP_PATTERN: &'static str = r"\bintern(?:ship)?\b";

pub const TEMPORARY_PATTERN: &'static str = r"\b(?:temporary|temp)\b";

pub const FREELANCE_PATTERN: &'static str = r"\bfreelance\b";

/// A dollar amount, a dash or `to`, and a second amount.
pub const SALARY_RANGE_PATTERN: &'static str = r"\$(\d+(?:,\d+)*(?:\.\d+)?)\s*(?:-|\s*to\s*)\s*\$?(\d+(?:,\d+)*(?:\.\d+)?)";

pub const SALARY_SINGLE_PATTERN: &'static str = r"\$(\d+(?:,\d+)*(?:\.\d+)?)";

/// A salary range as it stands in a job description.
pub const DESCRIPTION_SALARY_PATTERN: &'static str = r"\$(\d+(?:,\d+)*(?:\.\d+)?)\s*(?:-|\s*to\s*)\s*\$?(\d+(?:,\d+)*(?:\.\d+)?)\s*(?:a year)?";

/// The phrase that, shortly before an internship mention, marks it as a disclaimer.
pub const INTERNSHIP_NEGATION: &'static str = "not hiring associate/";

/// How many characters before an internship mention are searched for the negation:
/// just enough to hold it.
pub const NEGATION_WINDOW: usize = 21;

#[derive(PartialEq, Eq, Structural, Clone, Copy, Debug)]
pub enum JobType {
    FullTime,
    PartTime,
    Contract,
    Internship,
    Temporary,
    Freelance,
}

pub open spec fn label_of(t: JobType) -> Seq<char> {
    match t {
        JobType::FullTime => "Full-time"@,
        JobType::PartTime => "Part-time"@,
        JobType::Contract => "Contract"@,
        JobType::Internship => "Internship"@,
        JobType::Temporary => "Temporary"@,
        JobType::Freelance => "Freelance"@,
    }
}

/// The label in lower case.
pub open spec fn lower_label_of(t: JobType) -> Seq<char> {
    match t {
        JobType::FullTime => "full-time"@,
        JobType::PartTime => "part-time"@,
        JobType::Contract => "contract"@,
        JobType::Internship => "internship"@,
        JobType::Temporary => "temporary"@,
        JobType::Freelance => "freelance"@,
    }
}

impl JobType {
    pub fn label(&self) -> (r: String)
        ensures
            r@ == label_of(*self),
    {
        match self {
            JobType::FullTime => String::from_str("Full-time"),
            JobType::PartTime => String::from_str("Part-time"),
            JobType::Contract => String::from_str("Contract"),
            JobType::Internship => String::from_str("Internship"),
            JobType::Temporary => String::from_str("Temporary"),
            JobType::Freelance => String::from_str("Freelance"),
        }
    }

    pub fn lower_label(&self) -> (r: Vec<char>)
        ensures
            r@ == lower_label_of(*self),
    {
        match self {
            JobType::FullTime => chars_of("full-time"),
            JobType::PartTime => chars_of("part-time"),
            JobType::Contract => chars_of("contract"),
            JobType::Internship => chars_of("internship"),
            JobType::Temporary => chars_of("temporary"),
            JobType::Freelance => chars_of("freelance"),
        }
    }
}

/// Some tag equals `a` or `b`.
pub open spec fn has_tag(tags: Seq<Seq<char>>, a: Seq<char>, b: Seq<char>) -> bool {
    exists|i: int| 0 <= i < tags.len() && (tags[i] == a || tags[i] == b)
}

/// The employment type that lowercased tags name, by fixed precedence.
pub open spec fn tag_job_type(tags: Seq<Seq<char>>) -> Option<JobType> {
    if has_tag(tags, "full_time"@, "full-time"@) {
        Some(JobType::FullTime)
    } else if has_tag(tags, "contract"@, "contractor"@) {
        Some(JobType::Contract)
    } else if has_tag(tags, "part_time"@, "part-time"@) {
        Some(JobType::PartTime)
    } else if has_tag(tags, "internship"@, "intern"@) {
        Some(JobType::Internship)
    } else {
        None
    }
}

pub open spec fn lowered_tags(tags: Seq<String>) -> Seq<Seq<char>> {
    tags.map_values(|t: String| lower_of(t@))
}

pub open spec fn found(pattern: &str, t: Seq<char>) -> bool {
    regex_capture(pattern@, t, 0) is Some
}

/// The characters of `t` within the window that ends where a match starts.
pub open spec fn window_before(t: Seq<char>, start: int) -> Seq<char> {
    let hi = if start <= t.len() { start } else { t.len() as int };
    let lo = if hi >= NEGATION_WINDOW { hi - NEGATION_WINDOW } else { 0 };
    t.subrange(lo, hi)
}

/// Some internship mention in `t` is not preceded, within the window, by the negation.
pub open spec fn internship_unnegated(t: Seq<char>) -> bool {
    let starts = regex_match_starts(INTERNSHIP_PATTERN@, t);
    exists|k: int|
        0 <= k < starts.len() && !contains(window_before(t, starts[k] as int), INTERNSHIP_NEGATION@)
}

/// The employment type that lowercased text states, by fixed precedence.
pub open spec fn text_job_type(t: Seq<char>) -> Option<JobType> {
    if found(FULL_TIME_PATTERN, t) {
        Some(JobType::FullTime)
    } else if found(PART_TIME_PATTERN, t) {
        Some(JobType::PartTime)
    } else if found(CONTRACT_PATTERN, t) {
        Some(JobType::Contract)
    } else if internship_unnegated(t) {
        Some(JobType::Internship)
    } else if found(TEMPORARY_PATTERN, t) {
        Some(JobType::Temporary)
    } else if found(FREELANCE_PATTERN, t) {
        Some(JobType::Freelance)
    } else {
        None
    }
}

/// Lowercased text that, lacking any stated type, reads as a permanent role.
pub open spec fn reads_senior(t: Seq<char>) -> bool {
    contains(t, "senior"@) || contains(t, "professional"@) || contains(t, "collaborative team"@)
}

pub open spec fn description_of(job: RawJob) -> Seq<char> {
    match job.description {
        Some(d) => d@,
        None => Seq::empty(),
    }
}

/// The employment type of a record: its tags first, then its description's wording,
/// then the seniority heuristic.
pub open spec fn job_type_of(job: RawJob) -> Option<JobType> {
    let by_tags = match job.tags {
        Some(tags) => tag_job_type(lowered_tags(tags@)),
        None => None,
    };
    let t = lower_of(description_of(job));
    if by_tags is Some {
        by_tags
    } else if text_job_type(t) is Some {
        text_job_type(t)
    } else if reads_senior(t) {
        Some(JobType::FullTime)
    } else {
        None
    }
}

fn has(t: &Vec<char>, lit: &str) -> (r: bool)
    ensures
        r == contains(t@, lit@),
{
    contains_exec(t, &chars_of(lit))
}

fn any_tag(tags: &Vec<Vec<char>>, a: &str, b: &str) -> (r: bool)
    ensures
        r == has_tag(crate::text::views(tags@), a@, b@),
{
    let ca = chars_of(a);
    let cb = chars_of(b);
    let mut i: usize = 0;
    while i < tags.len()
        invariant
            i <= tags@.len(),
            ca@ == a@,
            cb@ == b@,
            forall|j: int| 0 <= j < i ==> tags@[j]@ != a@ && tags@[j]@ != b@,
        decreases tags@.len() - i,
    {
        if chars_eq(&tags[i], &ca) || chars_eq(&tags[i], &cb) {
            assert(crate::text::views(tags@)[i as int] == tags@[i as int]@);
            return true;
        }
        i = i + 1;
    }
    assert forall|j: int| 0 <= j < tags@.len() implies !(crate::text::views(tags@)[j] == a@
        || crate::text::views(tags@)[j] == b@) by {
        assert(crate::text::views(tags@)[j] == tags@[j]@);
    }
    false
}

/// The employment type that tags name, matched without regard to case.
pub fn job_type_from_tags(tags: &Vec<String>) -> (r: Option<JobType>)
    ensures
        r == tag_job_type(lowered_tags(tags@)),
{
    let mut lowered: Vec<Vec<char>> = Vec::new();
    let mut i: usize = 0;
    while i < tags.len()
        invariant
            i <= tags@.len(),
            crate::text::views(lowered@) =~= lowered_tags(tags@).take(i as int),
        decreases tags@.len() - i,
    {
        let l = lowercase(tags[i].as_str());
        let ghost before = lowered@;
        let c = chars_of(l.as_str());
        lowered.push(c);
        assert(lowered@ == before.push(c));
        assert(crate::text::views(before.push(c)) =~= crate::text::views(before).push(c@));
        assert(lowered_tags(tags@).take(i + 1) =~= lowered_tags(tags@).take(i as int).push(
            lower_of(tags@[i as int]@),
        ));
        i = i + 1;
        assert(crate::text::views(lowered@) =~= lowered_tags(tags@).take(i as int));
    }
    assert(lowered_tags(tags@).take(i as int) =~= lowered_tags(tags@));
    if any_tag(&lowered, "full_time", "full-time") {
        Some(JobType::FullTime)
    } else if any_tag(&lowered, "contract", "contractor") {
        Some(JobType::Contract)
    } else if any_tag(&lowered, "part_time", "part-time") {
        Some(JobType::PartTime)
    } else if any_tag(&lowered, "internship", "intern") {
        Some(JobType::Internship)
    } else {
        None
    }
}

fn found_exec(pattern: &str, t: &String) -> (r: bool)
    ensures
        r == found(pattern, t@),
{
    capture_group(pattern, t.as_str(), 0).is_some()
}

/// Whether some internship mention in the lowercased text `t` is not a disclaimer.
fn internship_unnegated_exec(t: &String) -> (r: bool)
    ensures
        r == internship_unnegated(t@),
{
    let starts = match_starts(INTERNSHIP_PATTERN, t.as_str());
    let tc = chars_of(t.as_str());
    let negation = chars_of(INTERNSHIP_NEGATION);
    let mut k: usize = 0;
    while k < starts.len()
        invariant
            k <= starts@.len(),
            starts@ == regex_match_starts(INTERNSHIP_PATTERN@, t@),
            tc@ == t@,
            negation@ == INTERNSHIP_NEGATION@,
            forall|j: int|
                0 <= j < k ==> contains(window_before(t@, starts@[j] as int), INTERNSHIP_NEGATION@),
        decreases starts@.len() - k,
    {
        let s = starts[k];
        let hi = if s <= tc.len() { s } else { tc.len() };
        let lo = if hi >= NEGATION_WINDOW { hi - NEGATION_WINDOW } else { 0 };
        let w = slice_of(&tc, lo, hi);
        if !contains_exec(&w, &negation) {
            return true;
        }
        k = k + 1;
    }
    false
}

/// The employment type that free text states, by fixed precedence: full-time,
/// part-time, contract, internship (unless negated), temporary, freelance.
pub fn extract_job_type(text: &str) -> (r: Option<JobType>)
    ensures
        r == text_job_type(lower_of(text@)),
{
    let t = lowercase(text);
    if found_exec(FULL_TIME_PATTERN, &t) {
        Some(JobType::FullTime)
    } else if found_exec(PART_TIME_PATTERN, &t) {
        Some(JobType::PartTime)
    } else if found_exec(CONTRACT_PATTERN, &t) {
        Some(JobType::Contract)
    } else if internship_unnegated_exec(&t) {
        Some(JobType::Internship)
    } else if found_exec(TEMPORARY_PATTERN, &t) {
        Some(JobType::Temporary)
    } else if found_exec(FREELANCE_PATTERN, &t) {
        Some(JobType::Freelance)
    } else {
        None
    }
}

/// The employment type of a record: its tags first, then its description.
pub fn determine_job_type(job: &RawJob) -> (r: Option<JobType>)
    ensures
        r == job_type_of(*job),
{
    if let Some(tags) = &job.tags {
        let by_tags = job_type_from_tags(tags);
        if by_tags.is_some() {
            return by_tags;
        }
    }
    let empty = String::new();
    let description = match &job.description {
        Some(d) => d,
        None => &empty,
    };
    let by_text = extract_job_type(description.as_str());
    if by_text.is_some() {
        return by_text;
    }
    let t = chars_of(lowercase(description.as_str()).as_str());
    if has(&t, "senior") || has(&t, "professional") || has(&t, "collaborative team") {
        Some(JobType::FullTime)
    } else {
        None
    }
}

/// Whether the tags of a record name full-time work, whatever its description says.
pub open spec fn tags_say_full_time(job: RawJob) -> bool {
    match job.tags {
        Some(tags) => has_tag(lowered_tags(tags@), "full_time"@, "full-time"@),
        None => false,
    }
}

/// A full-time tag decides the type, over any wording of the description.
pub proof fn lemma_tags_take_precedence(job: RawJob)
    requires
        tags_say_full_time(job),
    ensures
        job_type_of(job) == Some(JobType::FullTime),
{
}

/// An amount with its thousands separators taken out.
pub open spec fn amount_of(g: Seq<char>) -> Seq<char> {
    replace_all(g, ","@, ""@)
}

pub open spec fn salary_text(text: Seq<char>) -> Seq<char> {
    replace_all(lower_of(text), " a year"@, ""@)
}

/// The salary bounds that a salary text states, as decimal amounts: a dollar range
/// gives both ends, a single dollar amount gives both bounds, anything else none.
pub open spec fn salary_of(text: Seq<char>) -> (Option<Seq<char>>, Option<Seq<char>>) {
    let s = salary_text(text);
    let lo = regex_capture(SALARY_RANGE_PATTERN@, s, 1);
    let hi = regex_capture(SALARY_RANGE_PATTERN@, s, 2);
    let one = regex_capture(SALARY_SINGLE_PATTERN@, s, 1);
    if text.len() == 0 {
        (None, None)
    } else if lo is Some && hi is Some {
        (Some(amount_of(lo->0)), Some(amount_of(hi->0)))
    } else if one is Some {
        (Some(amount_of(one->0)), Some(amount_of(one->0)))
    } else {
        (None, None)
    }
}

pub open spec fn opt_chars(o: Option<String>) -> Option<Seq<char>> {
    match o {
        Some(s) => Some(s@),
        None => None,
    }
}

fn amount_exec(g: &String) -> (r: String)
    ensures
        r@ == amount_of(g@),
{
    let comma = chars_of(",");
    let empty: Vec<char> = Vec::new();
    proof {
        reveal_strlit(",");
        reveal_strlit("");
        assert(empty@ =~= ""@);
    }
    string_of(&replace_all_exec(&chars_of(g.as_str()), &comma, &empty))
}

/// The salary bounds stated in `salary_text`, each as its decimal amount without
/// thousands separators.
pub fn parse_salary(salary_text: &str) -> (r: (Option<String>, Option<String>))
    ensures
        (opt_chars(r.0), opt_chars(r.1)) == salary_of(salary_text@),
{
    if salary_text.is_empty() {
        return (None, None);
    }
    let lowered = chars_of(lowercase(salary_text).as_str());
    let suffix = chars_of(" a year");
    proof {
        reveal_strlit(" a year");
    }
    let empty: Vec<char> = Vec::new();
    proof {
        reveal_strlit("");
        assert(empty@ =~= ""@);
    }
    let s = string_of(&replace_all_exec(&lowered, &suffix, &empty));
    let lo = capture_group(SALARY_RANGE_PATTERN, s.as_str(), 1);
    let hi = capture_group(SALARY_RANGE_PATTERN, s.as_str(), 2);
    if let (Some(a), Some(b)) = (&lo, &hi) {
        return (Some(amount_exec(a)), Some(amount_exec(b)));
    }
    match capture_group(SALARY_SINGLE_PATTERN, s.as_str(), 1) {
        Some(v) => {
            let a = amount_exec(&v);
            let b = amount_exec(&v);
            (Some(a), Some(b))
        },
        None => (None, None),
    }
}

/// The difficulty tier that a lowercased title suggests.
pub open spec fn difficulty_of(t: Seq<char>) -> Seq<char> {
    if contains(t, "beginner"@) || contains(t, "basics"@) || contains(t, "introduction"@)
        || contains(t, "101"@) {
        "beginner"@
    } else if contains(t, "advanced"@) || contains(t, "expert"@) || contains(t, "master"@) {
        "advanced"@
    } else {
        "intermediate"@
    }
}

/// The difficulty tier of a video by the words of its title.
pub fn determine_difficulty(title: &str) -> (r: String)
    ensures
        r@ == difficulty_of(lower_of(title@)),
{
    let t = chars_of(lowercase(title).as_str());
    if has(&t, "beginner") || has(&t, "basics") || has(&t, "introduction") || has(&t, "101") {
        String::from_str("beginner")
    } else if has(&t, "advanced") || has(&t, "expert") || has(&t, "master") {
        String::from_str("advanced")
    } else {
        String::from_str("intermediate")
    }
}

} // verus!
