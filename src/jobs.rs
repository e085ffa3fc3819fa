//! Job records: the upstream shape, the listing a search returns, and the two
//! filtering passes over one upstream feed.

use vstd::prelude::*;
use crate::foreign::{chars_of, string_of, lowercase, lower_of, capture_group, regex_capture};
use crate::text::{chars_eq, occurs_at, contains, contains_exec, starts_with, starts_with_exec, words, words_exec, views, trim, trim_chars, decimal, push_decimal, find_from, slice_of};
use crate::query::{lowered, lowered_exec, NormalizedQuery};
use crate::classify::{
    JobType, job_type_of, label_of, lower_label_of, salary_of, opt_chars, parse_salary,
    determine_job_type, DESCRIPTION_SALARY_PATTERN,
};

verus! {

/// The provider's base address, for links it gives relative to it.
pub const REMOTEOK_BASE: &'static str = "https://remoteok.com";

/// Where the provider's logo files live, for logos it gives by file name.
pub const REMOTEOK_LOGO_BASE: &'static str = "https://remoteok.com/assets/img/jobs/";

/// One upstream job record; a field the provider left out is `None`.
pub struct RawJob {
    pub id: Option<String>,
    pub position: Option<String>,
    pub company: Option<String>,
    pub description: Option<String>,
    pub url: Option<String>,
    pub date: Option<String>,
    pub salary: Option<String>,
    pub tags: Option<Vec<String>>,
    pub logo: Option<String>,
}

/// A job listing as the search returns it. Salary bounds are decimal amounts.
pub struct Job {
    pub id: String,
    pub title: String,
    pub employer_name: String,
    pub location: String,
    pub description: String,
    pub apply_url: String,
    pub salary_min: Option<String>,
    pub salary_max: Option<String>,
    pub date_posted: Option<String>,
    pub remote: bool,
    pub job_type: Option<String>,
    pub employer_logo: Option<String>,
}

pub struct JobView {
    pub id: Seq<char>,
    pub title: Seq<char>,
    pub employer_name: Seq<char>,
    pub location: Seq<char>,
    pub description: Seq<char>,
    pub apply_url: Seq<char>,
    pub salary_min: Option<Seq<char>>,
    pub salary_max: Option<Seq<char>>,
    pub date_posted: Option<Seq<char>>,
    pub remote: bool,
    pub job_type: Option<Seq<char>>,
    pub employer_logo: Option<Seq<char>>,
}

impl View for Job {
    type V = JobView;

    open spec fn view(&self) -> JobView {
        JobView {
            id: self.id@,
            title: self.title@,
            employer_name: self.employer_name@,
            location: self.location@,
            description: self.description@,
            apply_url: self.apply_url@,
            salary_min: opt_chars(self.salary_min),
            salary_max: opt_chars(self.salary_max),
            date_posted: opt_chars(self.date_posted),
            remote: self.remote,
            job_type: opt_chars(self.job_type),
            employer_logo: opt_chars(self.employer_logo),
        }
    }
}

pub open spec fn job_views(s: Seq<Job>) -> Seq<JobView> {
    s.map_values(|j: Job| j@)
}

/// The records of an upstream feed: all but its first element, which holds metadata.
pub open spec fn records_of(feed: Seq<RawJob>) -> Seq<RawJob> {
    if feed.len() > 0 {
        feed.drop_first()
    } else {
        Seq::empty()
    }
}

/// A requested employment type as the filter compares it.
pub open spec fn wanted_of(job_type: Option<&str>) -> Option<Seq<char>> {
    match job_type {
        Some(j) => Some(lowered(j@)),
        None => None,
    }
}

pub open spec fn or_empty(o: Option<String>) -> Seq<char> {
    match o {
        Some(s) => s@,
        None => Seq::empty(),
    }
}

/// A link made absolute: kept where it already names a scheme, else put after `base`.
pub open spec fn absolute(u: Seq<char>, base: Seq<char>) -> Seq<char> {
    if starts_with(u, "http"@) {
        u
    } else {
        base + u
    }
}

pub open spec fn type_label(job: RawJob) -> Option<Seq<char>> {
    match job_type_of(job) {
        Some(t) => Some(label_of(t)),
        None => None,
    }
}

pub open spec fn logo_link(job: RawJob) -> Option<Seq<char>> {
    match job.logo {
        Some(l) => Some(absolute(l@, REMOTEOK_LOGO_BASE@)),
        None => None,
    }
}

pub open spec fn apply_link(job: RawJob) -> Seq<char> {
    match job.url {
        Some(u) => absolute(u@, REMOTEOK_BASE@),
        None => Seq::empty(),
    }
}

/// A salary range found in a lowercased description, written `$A - $B`; empty where
/// there is none.
pub open spec fn description_salary(d: Seq<char>) -> Seq<char> {
    let a = regex_capture(DESCRIPTION_SALARY_PATTERN@, d, 1);
    let b = regex_capture(DESCRIPTION_SALARY_PATTERN@, d, 2);
    if a is Some && b is Some {
        "$"@ + a->0 + " - $"@ + b->0
    } else {
        Seq::empty()
    }
}

/// The salary text of a record: its own field, or else a range in its description.
pub open spec fn general_salary_text(job: RawJob) -> Seq<char> {
    if or_empty(job.salary).len() > 0 {
        or_empty(job.salary)
    } else {
        description_salary(lower_of(or_empty(job.description)))
    }
}

/// The listing that the general pass makes of a record, the `n`th it accepts.
pub open spec fn general_listing(job: RawJob, n: nat) -> JobView {
    let salary = salary_of(general_salary_text(job));
    JobView {
        id: match job.id {
            Some(i) => i@,
            None => "remoteok_"@ + decimal(n),
        },
        title: or_empty(job.position),
        employer_name: or_empty(job.company),
        location: "Remote"@,
        description: or_empty(job.description),
        apply_url: apply_link(job),
        salary_min: salary.0,
        salary_max: salary.1,
        date_posted: opt_chars(job.date),
        remote: true,
        job_type: type_label(job),
        employer_logo: logo_link(job),
    }
}

/// The listing that the location pass makes of a record, the `n`th it accepts.
pub open spec fn location_listing(job: RawJob, n: nat, location: Seq<char>) -> JobView {
    let salary = salary_of(general_salary_text(job));
    JobView {
        id: match job.id {
            Some(i) => i@,
            None => "remoteok_loc_"@ + decimal(n),
        },
        title: or_empty(job.position),
        employer_name: or_empty(job.company),
        location: location + " (Remote)"@,
        description: or_empty(job.description),
        apply_url: apply_link(job),
        salary_min: salary.0,
        salary_max: salary.1,
        date_posted: opt_chars(job.date),
        remote: true,
        job_type: type_label(job),
        employer_logo: logo_link(job),
    }
}

/// A requested employment type (lowercased) admits a lowercase type label.
pub open spec fn type_admits(wanted: Seq<char>, label: Seq<char>) -> bool {
    contains(label, wanted) || (wanted == "full-time"@ && contains(label, "full"@)) || (wanted
        == "part-time"@ && contains(label, "part"@)) || (wanted == "contract"@ && (contains(
        label,
        "contract"@,
    ) || contains(label, "freelance"@)))
}

/// A record passes the employment-type filter: always without one, and otherwise
/// only with a determined type that the filter admits.
pub open spec fn type_filter_passes(wanted: Option<Seq<char>>, job: RawJob) -> bool {
    match wanted {
        None => true,
        Some(w) => match job_type_of(job) {
            Some(t) => type_admits(w, lower_label_of(t)),
            None => false,
        },
    }
}

pub open spec fn is_filler(w: Seq<char>) -> bool {
    w == "jobs"@ || w == "trending"@ || w == "remote"@ || w == "work"@ || w == "career"@ || w
        == "opportunity"@
}

pub open spec fn utf8_width(c: char) -> nat {
    if (c as u32) < 0x80 {
        1
    } else if (c as u32) < 0x800 {
        2
    } else if (c as u32) < 0x10000 {
        3
    } else {
        4
    }
}

/// The length of `w` in UTF-8 bytes.
pub open spec fn utf8_len(w: Seq<char>) -> nat
    decreases w.len(),
{
    if w.len() == 0 {
        0
    } else {
        utf8_len(w.drop_last()) + utf8_width(w.last())
    }
}

/// The words that carry a trending search: no filler word and more than two bytes.
pub open spec fn meaningful_words(ws: Seq<Seq<char>>) -> Seq<Seq<char>> {
    ws.filter(|w: Seq<char>| !is_filler(w) && utf8_len(w) > 2)
}

pub open spec fn non_filler_words(ws: Seq<Seq<char>>) -> Seq<Seq<char>> {
    ws.filter(|w: Seq<char>| !is_filler(w))
}

/// The words a trending search matches on: the meaningful ones, or where there are
/// none, every word that is no filler.
pub open spec fn trending_words(ws: Seq<Seq<char>>) -> Seq<Seq<char>> {
    if meaningful_words(ws).len() > 0 {
        meaningful_words(ws)
    } else {
        non_filler_words(ws)
    }
}

pub open spec fn in_either(w: Seq<char>, a: Seq<char>, b: Seq<char>) -> bool {
    contains(a, w) || contains(b, w)
}

/// The search words match a record's lowercased title and description: in trending
/// mode some trending word stands in one of them, otherwise every word does.
pub open spec fn words_match(ws: Seq<Seq<char>>, trending: bool, pos: Seq<char>, desc: Seq<char>) -> bool {
    if trending {
        let parts = trending_words(ws);
        parts.len() > 0 && exists|i: int| 0 <= i < parts.len() && in_either(parts[i], pos, desc)
    } else {
        ws.len() > 0 && forall|i: int| 0 <= i < ws.len() ==> in_either(ws[i], pos, desc)
    }
}

pub open spec fn general_accepts(
    job: RawJob,
    term: Seq<char>,
    trending: bool,
    wanted: Option<Seq<char>>,
) -> bool {
    words_match(
        words(term),
        trending,
        lower_of(or_empty(job.position)),
        lower_of(or_empty(job.description)),
    ) && type_filter_passes(wanted, job)
}

/// The listings that the general pass makes of `recs`, in order, at most `limit`.
pub open spec fn general_collect(
    recs: Seq<RawJob>,
    term: Seq<char>,
    trending: bool,
    wanted: Option<Seq<char>>,
    limit: nat,
) -> Seq<JobView>
    decreases recs.len(),
{
    if recs.len() == 0 {
        Seq::empty()
    } else {
        let prev = general_collect(recs.drop_last(), term, trending, wanted, limit);
        if prev.len() < limit && general_accepts(recs.last(), term, trending, wanted) {
            prev.push(general_listing(recs.last(), prev.len()))
        } else {
            prev
        }
    }
}

/// The general pass over an upstream feed, whose first element is no record.
pub open spec fn general_pass(
    feed: Seq<RawJob>,
    term: Seq<char>,
    trending: bool,
    wanted: Option<Seq<char>>,
    limit: nat,
) -> Seq<JobView> {
    general_collect(records_of(feed), term, trending, wanted, limit)
}

/// The city of a lowercased location: what stands before its first comma, trimmed.
pub open spec fn city_of(l: Seq<char>) -> Seq<char> {
    if contains(l, ","@) {
        trim(l.take(choose|i: int| occurs_at_first(l, i)))
    } else {
        trim(l)
    }
}

pub open spec fn occurs_at_first(l: Seq<char>, i: int) -> bool {
    0 <= i < l.len() && l[i] == ',' && forall|j: int| 0 <= j < i ==> l[j] != ','
}

pub open spec fn mentions_location(l: Seq<char>, pos: Seq<char>, desc: Seq<char>) -> bool {
    contains(desc, city_of(l)) || contains(desc, l) || contains(pos, city_of(l)) || contains(pos, l)
}

pub open spec fn location_accepts(
    job: RawJob,
    term: Seq<char>,
    location: Seq<char>,
    wanted: Option<Seq<char>>,
) -> bool {
    let pos = lower_of(or_empty(job.position));
    let ws = words(term);
    &&& forall|i: int| 0 <= i < ws.len() ==> contains(pos, ws[i])
    &&& mentions_location(lower_of(location), pos, lower_of(or_empty(job.description)))
    &&& type_filter_passes(wanted, job)
}

pub open spec fn location_collect(
    recs: Seq<RawJob>,
    term: Seq<char>,
    location: Seq<char>,
    wanted: Option<Seq<char>>,
    limit: nat,
) -> Seq<JobView>
    decreases recs.len(),
{
    if recs.len() == 0 {
        Seq::empty()
    } else {
        let prev = location_collect(recs.drop_last(), term, location, wanted, limit);
        if prev.len() < limit && location_accepts(recs.last(), term, location, wanted) {
            prev.push(location_listing(recs.last(), prev.len(), location))
        } else {
            prev
        }
    }
}

/// The location pass over an upstream feed, whose first element is no record.
pub open spec fn location_pass(
    feed: Seq<RawJob>,
    term: Seq<char>,
    location: Seq<char>,
    wanted: Option<Seq<char>>,
    limit: nat,
) -> Seq<JobView> {
    location_collect(records_of(feed), term, location, wanted, limit)
}

fn copy_opt(o: &Option<String>) -> (r: Option<String>)
    ensures
        opt_chars(r) == opt_chars(*o),
{
    match o {
        Some(s) => Some(s.clone()),
        None => None,
    }
}

fn text_or_empty(o: &Option<String>) -> (r: String)
    ensures
        r@ == or_empty(*o),
{
    match o {
        Some(s) => s.clone(),
        None => String::new(),
    }
}

fn absolute_exec(u: &String, base: &str) -> (r: String)
    ensures
        r@ == absolute(u@, base@),
{
    let uc = chars_of(u.as_str());
    if starts_with_exec(&uc, &chars_of("http")) {
        u.clone()
    } else {
        String::from_str(base).concat(u.as_str())
    }
}

fn label_opt(t: Option<JobType>) -> (r: Option<String>)
    ensures
        opt_chars(r) == match t {
            Some(t) => Some(label_of(t)),
            None => None::<Seq<char>>,
        },
{
    match t {
        Some(t) => Some(t.label()),
        None => None,
    }
}

fn logo_exec(job: &RawJob) -> (r: Option<String>)
    ensures
        opt_chars(r) == logo_link(*job),
{
    match &job.logo {
        Some(l) => Some(absolute_exec(l, REMOTEOK_LOGO_BASE)),
        None => None,
    }
}

fn apply_exec(job: &RawJob) -> (r: String)
    ensures
        r@ == apply_link(*job),
{
    match &job.url {
        Some(u) => absolute_exec(u, REMOTEOK_BASE),
        None => String::new(),
    }
}

fn fallback_id(job: &RawJob, prefix: &str, n: usize) -> (r: String)
    ensures
        r@ == match job.id {
            Some(i) => i@,
            None => prefix@ + decimal(n as nat),
        },
{
    match &job.id {
        Some(i) => i.clone(),
        None => {
            let mut out = chars_of(prefix);
            push_decimal(&mut out, n as u64);
            string_of(&out)
        },
    }
}

fn description_salary_exec(d: &String) -> (r: String)
    ensures
        r@ == description_salary(d@),
{
    let a = capture_group(DESCRIPTION_SALARY_PATTERN, d.as_str(), 1);
    let b = capture_group(DESCRIPTION_SALARY_PATTERN, d.as_str(), 2);
    match (a, b) {
        (Some(a), Some(b)) => String::from_str("$").concat(a.as_str()).concat(" - $").concat(
            b.as_str(),
        ),
        _ => String::new(),
    }
}

/// The salary text of a record: its own field, or else a range in its description.
fn salary_text_exec(job: &RawJob) -> (r: String)
    ensures
        r@ == general_salary_text(*job),
{
    let own = text_or_empty(&job.salary);
    if own.as_str().is_empty() {
        let d = lowercase(text_or_empty(&job.description).as_str());
        description_salary_exec(&d)
    } else {
        own
    }
}

/// The listing that the general pass makes of `job`, whose type `t` is known.
fn make_general_listing(job: &RawJob, n: usize, t: Option<JobType>) -> (r: Job)
    requires
        t == job_type_of(*job),
    ensures
        r@ == general_listing(*job, n as nat),
{
    let (salary_min, salary_max) = parse_salary(salary_text_exec(job).as_str());
    let r = Job {
        id: fallback_id(job, "remoteok_", n),
        title: text_or_empty(&job.position),
        employer_name: text_or_empty(&job.company),
        location: String::from_str("Remote"),
        description: text_or_empty(&job.description),
        apply_url: apply_exec(job),
        salary_min,
        salary_max,
        date_posted: copy_opt(&job.date),
        remote: true,
        job_type: label_opt(t),
        employer_logo: logo_exec(job),
    };
    assert(r@ == general_listing(*job, n as nat));
    r
}

/// The listing that the location pass makes of `job`, whose type `t` is known.
fn make_location_listing(job: &RawJob, n: usize, location: &str, t: Option<JobType>) -> (r: Job)
    requires
        t == job_type_of(*job),
    ensures
        r@ == location_listing(*job, n as nat, location@),
{
    let (salary_min, salary_max) = parse_salary(salary_text_exec(job).as_str());
    let r = Job {
        id: fallback_id(job, "remoteok_loc_", n),
        title: text_or_empty(&job.position),
        employer_name: text_or_empty(&job.company),
        location: String::from_str(location).concat(" (Remote)"),
        description: text_or_empty(&job.description),
        apply_url: apply_exec(job),
        salary_min,
        salary_max,
        date_posted: copy_opt(&job.date),
        remote: true,
        job_type: label_opt(t),
        employer_logo: logo_exec(job),
    };
    assert(r@ == location_listing(*job, n as nat, location@));
    r
}

fn is_filler_exec(w: &Vec<char>) -> (r: bool)
    ensures
        r == is_filler(w@),
{
    chars_eq(w, &chars_of("jobs")) || chars_eq(w, &chars_of("trending")) || chars_eq(
        w,
        &chars_of("remote"),
    ) || chars_eq(w, &chars_of("work")) || chars_eq(w, &chars_of("career")) || chars_eq(
        w,
        &chars_of("opportunity"),
    )
}

proof fn lemma_utf8_len_prefix(w: Seq<char>, i: int)
    requires
        0 <= i <= w.len(),
    ensures
        utf8_len(w.take(i)) <= utf8_len(w),
    decreases w.len() - i,
{
    if i < w.len() {
        lemma_utf8_len_prefix(w, i + 1);
        assert(w.take(i + 1).drop_last() =~= w.take(i));
    } else {
        assert(w.take(i) =~= w);
    }
}

/// Whether `w` takes more than two bytes in UTF-8.
fn wider_than_two(w: &Vec<char>) -> (r: bool)
    ensures
        r == (utf8_len(w@) > 2),
{
    let mut acc: usize = 0;
    let mut i: usize = 0;
    assert(w@.take(0) =~= Seq::<char>::empty());
    while i < w.len()
        invariant
            i <= w@.len(),
            acc == utf8_len(w@.take(i as int)),
            acc <= 2,
        decreases w@.len() - i,
    {
        let u = w[i] as u32;
        let width: usize = if u < 0x80 {
            1
        } else if u < 0x800 {
            2
        } else if u < 0x10000 {
            3
        } else {
            4
        };
        assert(w@.take(i + 1).drop_last() =~= w@.take(i as int));
        acc = acc + width;
        i = i + 1;
        if acc > 2 {
            proof {
                lemma_utf8_len_prefix(w@, i as int);
            }
            return true;
        }
    }
    assert(w@.take(i as int) =~= w@);
    false
}

fn copy_chars(v: &Vec<char>) -> (r: Vec<char>)
    ensures
        r@ == v@,
{
    let r = slice_of(v, 0, v.len());
    assert(v@.subrange(0, v@.len() as int) =~= v@);
    r
}

/// The words that survive the filler filter, and the length filter if asked.
fn filter_words(ws: &Vec<Vec<char>>, need_width: bool) -> (r: Vec<Vec<char>>)
    ensures
        views(r@) == if need_width {
            meaningful_words(views(ws@))
        } else {
            non_filler_words(views(ws@))
        },
{
    let ghost all = views(ws@);
    let mut out: Vec<Vec<char>> = Vec::new();
    let mut i: usize = 0;
    assert(all.take(0) =~= Seq::<Seq<char>>::empty());
    assert(views(out@) =~= Seq::<Seq<char>>::empty());
    while i < ws.len()
        invariant
            i <= ws@.len(),
            all == views(ws@),
            views(out@) == if need_width {
                meaningful_words(all.take(i as int))
            } else {
                non_filler_words(all.take(i as int))
            },
        decreases ws@.len() - i,
    {
        assert(all.take(i + 1).drop_last() =~= all.take(i as int));
        assert(all.take(i + 1).last() == ws@[i as int]@);
        let keep = !is_filler_exec(&ws[i]) && (!need_width || wider_than_two(&ws[i]));
        proof {
            reveal(Seq::filter);
            let t = all.take(i + 1);
            assert(all.len() == ws@.len());
            assert(t.len() == i + 1);
            assert(meaningful_words(t) == if !is_filler(t.last()) && utf8_len(t.last()) > 2 {
                meaningful_words(t.drop_last()).push(t.last())
            } else {
                meaningful_words(t.drop_last())
            });
            assert(non_filler_words(t) == if !is_filler(t.last()) {
                non_filler_words(t.drop_last()).push(t.last())
            } else {
                non_filler_words(t.drop_last())
            });
        }
        if keep {
            let ghost before = out@;
            let c = copy_chars(&ws[i]);
            out.push(c);
            assert(views(out@) =~= views(before).push(c@));
        }
        i = i + 1;
    }
    assert(all.take(i as int) =~= all);
    out
}

fn in_either_exec(w: &Vec<char>, a: &Vec<char>, b: &Vec<char>) -> (r: bool)
    ensures
        r == in_either(w@, a@, b@),
{
    contains_exec(a, w) || contains_exec(b, w)
}

/// Whether the search words match a record's lowercased title and description.
pub fn words_match_exec(ws: &Vec<Vec<char>>, trending: bool, pos: &Vec<char>, desc: &Vec<char>) -> (r: bool)
    ensures
        r == words_match(views(ws@), trending, pos@, desc@),
{
    if trending {
        let meaningful = filter_words(ws, true);
        let parts = if meaningful.len() > 0 {
            meaningful
        } else {
            filter_words(ws, false)
        };
        let ghost ps = trending_words(views(ws@));
        assert(views(parts@) == ps);
        if parts.len() == 0 {
            return false;
        }
        let mut i: usize = 0;
        while i < parts.len()
            invariant
                i <= parts@.len(),
                views(parts@) == ps,
                ps == trending_words(views(ws@)),
                trending,
                forall|j: int| 0 <= j < i ==> !in_either(ps[j], pos@, desc@),
            decreases parts@.len() - i,
        {
            if in_either_exec(&parts[i], pos, desc) {
                assert(ps[i as int] == parts@[i as int]@);
                assert(in_either(ps[i as int], pos@, desc@));
                assert(ps.len() > 0);
                assert(exists|j: int| 0 <= j < ps.len() && in_either(ps[j], pos@, desc@));
                assert(words_match(views(ws@), trending, pos@, desc@));
                return true;
            }
            assert(ps[i as int] == parts@[i as int]@);
            i = i + 1;
        }
        false
    } else {
        if ws.len() == 0 {
            return false;
        }
        let ghost all = views(ws@);
        let mut i: usize = 0;
        while i < ws.len()
            invariant
                i <= ws@.len(),
                all == views(ws@),
                !trending,
                ws@.len() > 0,
                forall|j: int| 0 <= j < i ==> in_either(all[j], pos@, desc@),
            decreases ws@.len() - i,
        {
            assert(all[i as int] == ws@[i as int]@);
            if !in_either_exec(&ws[i], pos, desc) {
                assert(!in_either(all[i as int], pos@, desc@));
                assert(!(forall|j: int| 0 <= j < all.len() ==> in_either(all[j], pos@, desc@)));
                assert(!words_match(views(ws@), trending, pos@, desc@));
                return false;
            }
            i = i + 1;
        }
        true
    }
}

fn type_filter_exec(wanted: &Option<Vec<char>>, t: Option<JobType>) -> (r: bool)
    ensures
        r == match opt_seq(*wanted) {
            None => true,
            Some(w) => match t {
                Some(t) => type_admits(w, lower_label_of(t)),
                None => false,
            },
        },
{
    match wanted {
        None => true,
        Some(w) => match t {
            None => false,
            Some(t) => {
                let l = t.lower_label();
                contains_exec(&l, w) || (chars_eq(w, &chars_of("full-time")) && contains_exec(
                    &l,
                    &chars_of("full"),
                )) || (chars_eq(w, &chars_of("part-time")) && contains_exec(
                    &l,
                    &chars_of("part"),
                )) || (chars_eq(w, &chars_of("contract")) && (contains_exec(
                    &l,
                    &chars_of("contract"),
                ) || contains_exec(&l, &chars_of("freelance"))))
            },
        },
    }
}

pub open spec fn opt_seq(o: Option<Vec<char>>) -> Option<Seq<char>> {
    match o {
        Some(v) => Some(v@),
        None => None,
    }
}

fn wanted_exec(job_type: Option<&str>) -> (r: Option<Vec<char>>)
    ensures
        opt_seq(r) == wanted_of(job_type),
{
    match job_type {
        Some(j) => Some(lowered_exec(j)),
        None => None,
    }
}

/// The city of a lowercased location.
fn city_exec(l: &Vec<char>) -> (r: Vec<char>)
    ensures
        r@ == city_of(l@),
{
    let comma = chars_of(",");
    proof {
        reveal_strlit(",");
    }
    match find_from(l, &comma, 0) {
        Some(p) => {
            proof {
                assert(l@.subrange(p as int, p + 1) == seq![',']);
                assert(l@[p as int] == l@.subrange(p as int, p + 1)[0]);
                assert forall|j: int| 0 <= j < p implies l@[j] != ',' by {
                    if l@[j] == ',' {
                        assert(l@.subrange(j, j + 1) =~= seq![',']);
                        assert(occurs_at(l@, comma@, j));
                    }
                }
                assert(occurs_at_first(l@, p as int));
                assert(contains(l@, ","@));
                let c = choose|i: int| occurs_at_first(l@, i);
                assert(c == p) by {
                    if c < p {
                        assert(l@[c] == ',');
                    } else if c > p {
                        assert(l@[p as int] == ',');
                    }
                }
            }
            let head = slice_of(l, 0, p);
            assert(head@ =~= l@.take(p as int));
            trim_chars(&head)
        },
        None => {
            assert(!contains(l@, ","@));
            trim_chars(l)
        },
    }
}

fn lowered_field(o: &Option<String>) -> (r: Vec<char>)
    ensures
        r@ == lower_of(or_empty(*o)),
{
    chars_of(lowercase(text_or_empty(o).as_str()).as_str())
}

/// The general pass: the records of `feed` whose title or description matches the
/// query, and whose type passes the filter, as listings, at most `limit` of them.
pub fn filter_remoteok_jobs(
    feed: &Vec<RawJob>,
    query: &NormalizedQuery,
    limit: usize,
    job_type: Option<&str>,
) -> (r: Vec<Job>)
    ensures
        job_views(r@) == general_pass(
            feed@,
            query.term@,
            query.trending,
            wanted_of(job_type),
            limit as nat,
        ),
        r@.len() <= limit,
{
    let ws = words_exec(&chars_of(query.term.as_str()));
    let wanted = wanted_exec(job_type);
    let ghost recs = records_of(feed@);
    let ghost term = query.term@;
    let ghost wv = wanted_of(job_type);
    let mut out: Vec<Job> = Vec::new();
    if feed.len() == 0 {
        assert(job_views(out@) =~= Seq::<JobView>::empty());
        return out;
    }
    let mut i: usize = 1;
    assert(recs.take(0) =~= Seq::<RawJob>::empty());
    assert(job_views(out@) =~= Seq::<JobView>::empty());
    while i < feed.len()
        invariant
            1 <= i <= feed@.len(),
            recs == feed@.drop_first(),
            views(ws@) == words(term),
            term == query.term@,
            opt_seq(wanted) == wv,
            job_views(out@) == general_collect(recs.take(i - 1), term, query.trending, wv, limit as nat),
            out@.len() <= limit,
        decreases feed@.len() - i,
    {
        let ghost prev = out@;
        let ghost upto = recs.take(i as int);
        assert(upto.drop_last() =~= recs.take(i - 1));
        assert(upto.last() == feed@[i as int]);
        let job = &feed[i];
        if out.len() < limit {
            let pos = lowered_field(&job.position);
            let desc = lowered_field(&job.description);
            if words_match_exec(&ws, query.trending, &pos, &desc) {
                let t = determine_job_type(job);
                if type_filter_exec(&wanted, t) {
                    let listing = make_general_listing(job, out.len(), t);
                    out.push(listing);
                    assert(job_views(out@) =~= job_views(prev).push(listing@));
                }
            }
        }
        i = i + 1;
    }
    assert(recs.take(i - 1) =~= recs);
    out
}

/// The location pass: the records of `feed` whose title holds every query word and
/// which mention the location, and whose type passes the filter, as listings
/// labelled with the location, at most `limit` of them.
pub fn filter_remoteok_jobs_with_location(
    feed: &Vec<RawJob>,
    term: &str,
    limit: usize,
    location: &str,
    job_type: Option<&str>,
) -> (r: Vec<Job>)
    ensures
        job_views(r@) == location_pass(feed@, term@, location@, wanted_of(job_type), limit as nat),
        r@.len() <= limit,
{
    let ws = words_exec(&chars_of(term));
    let wanted = wanted_exec(job_type);
    let loc = chars_of(lowercase(location).as_str());
    let city = city_exec(&loc);
    let ghost recs = records_of(feed@);
    let ghost wv = wanted_of(job_type);
    let ghost all = views(ws@);
    let mut out: Vec<Job> = Vec::new();
    if feed.len() == 0 {
        assert(job_views(out@) =~= Seq::<JobView>::empty());
        return out;
    }
    let mut i: usize = 1;
    assert(recs.take(0) =~= Seq::<RawJob>::empty());
    assert(job_views(out@) =~= Seq::<JobView>::empty());
    while i < feed.len()
        invariant
            1 <= i <= feed@.len(),
            recs == feed@.drop_first(),
            all == views(ws@),
            all == words(term@),
            loc@ == lower_of(location@),
            city@ == city_of(loc@),
            opt_seq(wanted) == wv,
            job_views(out@) == location_collect(recs.take(i - 1), term@, location@, wv, limit as nat),
            out@.len() <= limit,
        decreases feed@.len() - i,
    {
        let ghost prev = out@;
        let ghost upto = recs.take(i as int);
        assert(upto.drop_last() =~= recs.take(i - 1));
        assert(upto.last() == feed@[i as int]);
        let job = &feed[i];
        if out.len() < limit {
            let pos = lowered_field(&job.position);
            let mut all_in_title = true;
            let mut k: usize = 0;
            while k < ws.len()
                invariant
                    k <= ws@.len(),
                    all == views(ws@),
                    all_in_title == forall|j: int| 0 <= j < k ==> contains(pos@, all[j]),
                decreases ws@.len() - k,
            {
                assert(all[k as int] == ws@[k as int]@);
                all_in_title = all_in_title && contains_exec(&pos, &ws[k]);
                k = k + 1;
            }
            if all_in_title {
                let desc = lowered_field(&job.description);
                let mentioned = contains_exec(&desc, &city) || contains_exec(&desc, &loc)
                    || contains_exec(&pos, &city) || contains_exec(&pos, &loc);
                if mentioned {
                    let t = determine_job_type(job);
                    if type_filter_exec(&wanted, t) {
                        let listing = make_location_listing(job, out.len(), location, t);
                        out.push(listing);
                        assert(job_views(out@) =~= job_views(prev).push(listing@));
                    }
                }
            }
        }
        i = i + 1;
    }
    assert(recs.take(i - 1) =~= recs);
    out
}

} // verus!
