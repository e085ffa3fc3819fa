//! Recency order for trending searches: newest post first, records without a
//! readable date after all dated ones, ties broken by ascending title.

use vstd::prelude::*;
use vstd::multiset::Multiset;
use crate::foreign::{chars_of, parse_rfc3339, rfc3339_instant};
use crate::jobs::{Job, JobView, job_views};

verus! {

broadcast use vstd::seq_lib::group_to_multiset_ensures;

/// `a` comes before `b` in code-point (equally, UTF-8 byte) order.
pub open spec fn title_lt(a: Seq<char>, b: Seq<char>) -> bool
    decreases a.len(),
{
    if b.len() == 0 {
        false
    } else if a.len() == 0 {
        true
    } else if (a[0] as u32) < (b[0] as u32) {
        true
    } else if a[0] == b[0] {
        title_lt(a.drop_first(), b.drop_first())
    } else {
        false
    }
}

/// Instant `a` is strictly later than `b`; any instant is later than none.
pub open spec fn later(a: Option<(i64, u32)>, b: Option<(i64, u32)>) -> bool {
    match (a, b) {
        (Some(x), Some(y)) => x.0 > y.0 || (x.0 == y.0 && x.1 > y.1),
        (Some(_), None) => true,
        _ => false,
    }
}

/// A record posted at `a_at` with title `a_title` goes strictly before one posted at
/// `b_at` with title `b_title`.
pub open spec fn ranks_before(
    a_at: Option<(i64, u32)>,
    a_title: Seq<char>,
    b_at: Option<(i64, u32)>,
    b_title: Seq<char>,
) -> bool {
    later(a_at, b_at) || (a_at == b_at && title_lt(a_title, b_title))
}

/// The instant a listing was posted at, where its date reads as RFC 3339.
pub open spec fn posted_at(j: JobView) -> Option<(i64, u32)> {
    match j.date_posted {
        Some(d) => rfc3339_instant(d),
        None => None,
    }
}

pub open spec fn job_before(a: JobView, b: JobView) -> bool {
    ranks_before(posted_at(a), a.title, posted_at(b), b.title)
}

/// Holds of a listing with posting instant `at` and title `title`.
pub open spec fn of_rank(at: Option<(i64, u32)>, title: Seq<char>) -> spec_fn(JobView) -> bool {
    |v: JobView| posted_at(v) == at && v.title == title
}

/// Listings that rank alike stand in `a` in the order they stand in `b`.
pub open spec fn keeps_ties_in_order(a: Seq<JobView>, b: Seq<JobView>) -> bool {
    forall|at: Option<(i64, u32)>, title: Seq<char>|
        #[trigger] a.filter(of_rank(at, title)) == b.filter(of_rank(at, title))
}

proof fn lemma_filter_insert(s: Seq<JobView>, p: int, x: JobView, f: spec_fn(JobView) -> bool)
    requires
        0 <= p <= s.len(),
        f(x) ==> forall|k: int| p <= k < s.len() ==> !f(s[k]),
    ensures
        s.insert(p, x).filter(f) == if f(x) {
            s.filter(f).push(x)
        } else {
            s.filter(f)
        },
    decreases s.len(),
{
    reveal(Seq::filter);
    let t = s.insert(p, x);
    if p == s.len() {
        assert(t =~= s.push(x));
        assert(t.drop_last() =~= s);
    } else {
        assert(t.drop_last() =~= s.drop_last().insert(p, x));
        assert(t.last() == s.last());
        lemma_filter_insert(s.drop_last(), p, x, f);
    }
}

proof fn lemma_filter_take(s: Seq<JobView>, i: int, f: spec_fn(JobView) -> bool)
    requires
        0 <= i < s.len(),
    ensures
        s.take(i + 1).filter(f) == if f(s[i]) {
            s.take(i).filter(f).push(s[i])
        } else {
            s.take(i).filter(f)
        },
{
    reveal(Seq::filter);
    assert(s.take(i + 1).drop_last() =~= s.take(i));
}

/// No listing stands after one that it goes before.
pub open spec fn in_recency_order(s: Seq<JobView>) -> bool {
    forall|i: int, j: int| 0 <= i < j < s.len() ==> !job_before(s[j], s[i])
}

proof fn lemma_title_lt_irreflexive(a: Seq<char>)
    ensures
        !title_lt(a, a),
    decreases a.len(),
{
    if a.len() > 0 {
        lemma_title_lt_irreflexive(a.drop_first());
    }
}

proof fn lemma_title_lt_transitive(a: Seq<char>, b: Seq<char>, c: Seq<char>)
    requires
        title_lt(a, b),
        title_lt(b, c),
    ensures
        title_lt(a, c),
    decreases a.len(),
{
    if a.len() > 0 && b.len() > 0 && c.len() > 0 && a[0] == b[0] && b[0] == c[0] {
        lemma_title_lt_transitive(a.drop_first(), b.drop_first(), c.drop_first());
    }
}

proof fn lemma_ranks_irreflexive(at: Option<(i64, u32)>, t: Seq<char>)
    ensures
        !ranks_before(at, t, at, t),
{
    lemma_title_lt_irreflexive(t);
}

proof fn lemma_ranks_transitive(a: JobView, b: JobView, c: JobView)
    requires
        job_before(a, b),
        job_before(b, c),
    ensures
        job_before(a, c),
{
    if posted_at(a) == posted_at(b) && posted_at(b) == posted_at(c) {
        lemma_title_lt_transitive(a.title, b.title, c.title);
    }
}

/// Whether `a` is strictly before `b` in code-point order.
pub fn title_lt_exec(a: &Vec<char>, b: &Vec<char>) -> (r: bool)
    ensures
        r == title_lt(a@, b@),
{
    let mut i: usize = 0;
    assert(a@.skip(0) =~= a@);
    assert(b@.skip(0) =~= b@);
    loop
        invariant
            i <= a@.len(),
            i <= b@.len(),
            title_lt(a@, b@) == title_lt(a@.skip(i as int), b@.skip(i as int)),
        decreases a@.len() - i,
    {
        if i == b.len() {
            return false;
        }
        if i == a.len() {
            return true;
        }
        let x = a[i] as u32;
        let y = b[i] as u32;
        assert(a@.skip(i as int)[0] == a@[i as int]);
        assert(b@.skip(i as int)[0] == b@[i as int]);
        if x < y {
            return true;
        }
        if a[i] != b[i] {
            return false;
        }
        assert(a@.skip(i as int).drop_first() =~= a@.skip(i + 1));
        assert(b@.skip(i as int).drop_first() =~= b@.skip(i + 1));
        i = i + 1;
    }
}

/// Whether a record posted at `a_at` titled `a_title` goes strictly before one posted
/// at `b_at` titled `b_title`: the later instant first, then the smaller title.
pub fn ranks_before_exec(
    a_at: Option<(i64, u32)>,
    a_title: &str,
    b_at: Option<(i64, u32)>,
    b_title: &str,
) -> (r: bool)
    ensures
        r == ranks_before(a_at, a_title@, b_at, b_title@),
{
    let is_later = match (a_at, b_at) {
        (Some(x), Some(y)) => x.0 > y.0 || (x.0 == y.0 && x.1 > y.1),
        (Some(_), None) => true,
        _ => false,
    };
    if is_later {
        return true;
    }
    let same = match (a_at, b_at) {
        (Some(x), Some(y)) => x.0 == y.0 && x.1 == y.1,
        (None, None) => true,
        _ => false,
    };
    same && title_lt_exec(&chars_of(a_title), &chars_of(b_title))
}

fn posted_at_exec(j: &Job) -> (r: Option<(i64, u32)>)
    ensures
        r == posted_at(j@),
{
    match &j.date_posted {
        Some(d) => parse_rfc3339(d.as_str()),
        None => None,
    }
}

/// The listings in recency order: a permutation of `jobs` in which no listing stands
/// after one it goes before, and listings that rank alike keep their order.
pub fn sort_by_recency(jobs: Vec<Job>) -> (r: Vec<Job>)
    ensures
        r@.to_multiset() == jobs@.to_multiset(),
        r@.len() == jobs@.len(),
        job_views(r@).to_multiset() == job_views(jobs@).to_multiset(),
        in_recency_order(job_views(r@)),
        keeps_ties_in_order(job_views(r@), job_views(jobs@)),
{
    let ghost jv = job_views(jobs@);
    let ghost mut i: int = 0;
    assert(jobs@.skip(0) =~= jobs@);
    assert forall|at: Option<(i64, u32)>, title: Seq<char>|
        #[trigger] job_views(Seq::<Job>::empty()).filter(of_rank(at, title)) == jv.take(0).filter(
            of_rank(at, title),
        ) by {
        reveal(Seq::filter);
        assert(job_views(Seq::<Job>::empty()) =~= Seq::<JobView>::empty());
        assert(jv.take(0) =~= Seq::<JobView>::empty());
    }
    let mut rest = jobs;
    let mut out: Vec<Job> = Vec::new();
    while rest.len() > 0
        invariant
            out@.to_multiset().add(rest@.to_multiset()) == jobs@.to_multiset(),
            job_views(out@).to_multiset().add(job_views(rest@).to_multiset()) == job_views(
                jobs@,
            ).to_multiset(),
            in_recency_order(job_views(out@)),
            0 <= i <= jobs@.len(),
            rest@ == jobs@.skip(i),
            jv == job_views(jobs@),
            keeps_ties_in_order(job_views(out@), jv.take(i)),
        decreases rest@.len(),
    {
        let ghost rest0 = rest@;
        let ghost out0 = out@;
        let x = rest.remove(0);
        assert(rest0.remove(0) == rest@);
        assert(x == jobs@[i]);
        assert(jobs@.skip(i).remove(0) =~= jobs@.skip(i + 1));
        let x_at = posted_at_exec(&x);
        let mut p: usize = 0;
        while p < out.len() && !ranks_before_exec(
            x_at,
            x.title.as_str(),
            posted_at_exec(&out[p]),
            out[p].title.as_str(),
        )
            invariant
                p <= out@.len(),
                out@ == out0,
                x_at == posted_at(x@),
                forall|k: int| 0 <= k < p ==> !job_before(x@, out0[k]@),
            decreases out@.len() - p,
        {
            p = p + 1;
        }
        let ghost stopped = p < out@.len();
        proof {
            if stopped {
                assert(job_before(x@, out0[p as int]@));
            }
        }
        out.insert(p, x);
        proof {
            let s = out@;
            assert(s == out0.insert(p as int, x));
            assert forall|a: int, b: int| 0 <= a < b < out0.len() implies !job_before(
                out0[b]@,
                out0[a]@,
            ) by {
                assert(job_views(out0)[a] == out0[a]@ && job_views(out0)[b] == out0[b]@);
            }
            assert forall|a: int, b: int| 0 <= a < b < s.len() implies !job_before(
                s[b]@,
                s[a]@,
            ) by {
                assert(forall|k: int| 0 <= k < out0.len() ==> job_views(out0)[k] == out0[k]@);
                if b < p {
                    assert(s[a] == out0[a] && s[b] == out0[b]);
                } else if b == p {
                    assert(s[a] == out0[a]);
                } else if a > p {
                    assert(s[a] == out0[a - 1] && s[b] == out0[b - 1]);
                } else if a == p {
                    assert(s[b] == out0[b - 1]);
                    assert(stopped);
                    if b - 1 == p {
                        if job_before(s[b]@, x@) {
                            lemma_ranks_transitive(x@, s[b]@, x@);
                            lemma_ranks_irreflexive(posted_at(x@), x@.title);
                        }
                    } else {
                        assert(!job_before(out0[b - 1]@, out0[p as int]@));
                        if job_before(s[b]@, x@) {
                            lemma_ranks_transitive(s[b]@, x@, out0[p as int]@);
                        }
                    }
                } else {
                    assert(s[a] == out0[a]);
                    assert(s[b] == out0[b - 1]);
                }
            }
            assert(in_recency_order(job_views(out@))) by {
                assert forall|a: int, b: int| 0 <= a < b < s.len() implies !job_before(
                    job_views(s)[b],
                    job_views(s)[a],
                ) by {
                    assert(job_views(s)[a] == s[a]@ && job_views(s)[b] == s[b]@);
                }
            }
            assert(job_views(out@) =~= job_views(out0).insert(p as int, x@));
            assert(job_views(rest@) =~= job_views(rest0).remove(0));
            assert(job_views(rest0)[0] == x@);
            assert(job_views(out@).to_multiset().add(job_views(rest@).to_multiset())
                =~= job_views(out0).to_multiset().add(job_views(rest0).to_multiset()));
            assert forall|at: Option<(i64, u32)>, title: Seq<char>|
                #[trigger] job_views(out@).filter(of_rank(at, title)) == jv.take(i + 1).filter(
                    of_rank(at, title),
                ) by {
                let f = of_rank(at, title);
                let ov = job_views(out0);
                assert(jv[i] == x@);
                lemma_filter_take(jv, i, f);
                if f(x@) {
                    assert forall|k: int| p <= k < ov.len() implies !f(ov[k]) by {
                        assert(ov[k] == out0[k]@);
                        if f(ov[k]) {
                            lemma_ranks_irreflexive(posted_at(x@), x@.title);
                            if k > p {
                                assert(ov[p as int] == out0[p as int]@);
                                assert(!job_before(out0[k]@, out0[p as int]@));
                            }
                        }
                    }
                }
                lemma_filter_insert(ov, p as int, x@, f);
                assert(ov.filter(f) == jv.take(i).filter(f));
            }
            i = i + 1;
            assert(out@.to_multiset() == out0.to_multiset().insert(x));
            assert(rest0.to_multiset() == rest@.to_multiset().insert(x));
            assert(out@.to_multiset().add(rest@.to_multiset()) =~= out0.to_multiset().add(
                rest0.to_multiset(),
            ));
        }
    }
    assert(rest@.to_multiset() =~= Multiset::empty());
    assert(job_views(rest@).to_multiset() =~= Multiset::empty());
    assert(job_views(out@).to_multiset().add(Multiset::empty()) =~= job_views(out@).to_multiset());
    assert(out@.to_multiset().len() == jobs@.to_multiset().len());
    assert(jv.take(i) =~= jv);
    assert(out@.to_multiset().add(Multiset::empty()) =~= out@.to_multiset());
    out
}

/// Listings that stand in recency order with the same posting instant (or both
/// without one) stand in ascending title order.
pub proof fn lemma_same_instant_by_title(s: Seq<JobView>, i: int, j: int)
    requires
        in_recency_order(s),
        0 <= i < j < s.len(),
        posted_at(s[i]) == posted_at(s[j]),
    ensures
        !title_lt(s[j].title, s[i].title),
{
    assert(!job_before(s[j], s[i]));
}

} // verus!
