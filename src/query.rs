//! Query normalization: trending detection, the clean search term, its words,
//! and the cache key of a job search.

use vstd::prelude::*;
use crate::foreign::{chars_of, string_of, lowercase, lower_of};
use crate::text::{
    trim, trim_chars, starts_with, starts_with_exec, words, replace_all, replace_all_exec,
    decimal, push_all, push_decimal, slice_of,
};

verus! {

/// The query as it is compared: lowercased, without surrounding white space.
pub open spec fn lowered(q: Seq<char>) -> Seq<char> {
    lower_of(trim(q))
}

/// A lowered query asks for trending jobs when it opens with `trending:` or `trending `.
pub open spec fn is_trending(l: Seq<char>) -> bool {
    starts_with(l, "trending:"@) || starts_with(l, "trending "@)
}

/// The search term of a lowered query: without the trending prefix and the white
/// space around what follows it in trending mode, the query itself otherwise.
pub open spec fn clean_term(l: Seq<char>) -> Seq<char> {
    if is_trending(l) {
        trim(l.skip(9))
    } else {
        l
    }
}

/// A query split into its search mode and its clean, lowercase search term.
pub struct NormalizedQuery {
    pub trending: bool,
    pub term: String,
}

/// The lowered form of `s`.
pub fn lowered_exec(s: &str) -> (r: Vec<char>)
    ensures
        r@ == lowered(s@),
{
    let t = trim_chars(&chars_of(s));
    let l = lowercase(string_of(&t).as_str());
    chars_of(l.as_str())
}

pub fn normalize_query(query: &str) -> (r: NormalizedQuery)
    ensures
        r.trending == is_trending(lowered(query@)),
        r.term@ == clean_term(lowered(query@)),
{
    let l = lowered_exec(query);
    let colon = chars_of("trending:");
    let space = chars_of("trending ");
    proof {
        reveal_strlit("trending:");
        reveal_strlit("trending ");
    }
    let trending = starts_with_exec(&l, &colon) || starts_with_exec(&l, &space);
    if trending {
        let rest = slice_of(&l, 9, l.len());
        assert(rest@ =~= l@.skip(9));
        let term = trim_chars(&rest);
        NormalizedQuery { trending: true, term: string_of(&term) }
    } else {
        NormalizedQuery { trending: false, term: string_of(&l) }
    }
}

pub open spec fn bool_text(b: bool) -> Seq<char> {
    if b { "true"@ } else { "false"@ }
}

/// A lowered field as it stands in a cache key: each space written as `_`.
pub open spec fn key_part(l: Seq<char>) -> Seq<char> {
    replace_all(l, " "@, "_"@)
}

pub open spec fn job_type_key_part(job_type: Option<&str>) -> Seq<char> {
    match job_type {
        Some(j) => key_part(lowered(j@)),
        None => Seq::empty(),
    }
}

/// The cache key of a job search: every field that shapes the result, lowercased,
/// trimmed, with spaces written as `_`, joined by `_` after the prefix `jobs`.
pub open spec fn job_key(
    query: Seq<char>,
    limit: u32,
    location: Seq<char>,
    remote_only: bool,
    job_type: Option<&str>,
) -> Seq<char> {
    "jobs_"@ + key_part(clean_term(lowered(query))) + "_"@ + decimal(limit as nat) + "_"@
        + key_part(lowered(location)) + "_"@ + bool_text(remote_only) + "_"@
        + job_type_key_part(job_type)
}

fn push_key_part(out: &mut Vec<char>, l: &Vec<char>)
    ensures
        final(out)@ == old(out)@ + key_part(l@),
{
    let space = chars_of(" ");
    let underscore = chars_of("_");
    proof {
        reveal_strlit(" ");
    }
    let part = replace_all_exec(l, &space, &underscore);
    push_all(out, &part);
}

pub fn job_cache_key(
    query: &str,
    limit: u32,
    location: &str,
    remote_only: bool,
    job_type: Option<&str>,
) -> (r: String)
    ensures
        r@ == job_key(query@, limit, location@, remote_only, job_type),
{
    let nq = normalize_query(query);
    let sep = chars_of("_");
    let mut out = chars_of("jobs_");
    push_key_part(&mut out, &chars_of(nq.term.as_str()));
    push_all(&mut out, &sep);
    push_decimal(&mut out, limit as u64);
    push_all(&mut out, &sep);
    push_key_part(&mut out, &lowered_exec(location));
    push_all(&mut out, &sep);
    if remote_only {
        push_all(&mut out, &chars_of("true"));
    } else {
        push_all(&mut out, &chars_of("false"));
    }
    push_all(&mut out, &sep);
    match job_type {
        Some(j) => push_key_part(&mut out, &lowered_exec(j)),
        None => {
            assert(out@ + Seq::<char>::empty() =~= out@);
        },
    }
    string_of(&out)
}

/// Two job searches whose queries and locations agree once lowercased and trimmed,
/// and whose other fields are equal, share one cache key.
pub proof fn lemma_key_ignores_case_and_outer_space(
    q1: Seq<char>,
    q2: Seq<char>,
    l1: Seq<char>,
    l2: Seq<char>,
    limit: u32,
    remote_only: bool,
    job_type: Option<&str>,
)
    requires
        lowered(q1) == lowered(q2),
        lowered(l1) == lowered(l2),
    ensures
        job_key(q1, limit, l1, remote_only, job_type) == job_key(
            q2,
            limit,
            l2,
            remote_only,
            job_type,
        ),
{
}

/// Surrounding white space never changes the cache key.
pub proof fn lemma_key_ignores_outer_space(
    q: Seq<char>,
    l: Seq<char>,
    limit: u32,
    remote_only: bool,
    job_type: Option<&str>,
)
    ensures
        job_key(trim(q), limit, trim(l), remote_only, job_type) == job_key(
            q,
            limit,
            l,
            remote_only,
            job_type,
        ),
{
    crate::text::lemma_trim_idempotent(q);
    crate::text::lemma_trim_idempotent(l);
}

} // verus!
