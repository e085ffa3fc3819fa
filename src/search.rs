//! A job search as a state machine: a cache lookup, then on a miss an optional
//! location pass and a general pass that fills the remaining slots, then storing
//! non-empty results. The caller performs each step that the machine asks for
//! (reading the cache, fetching the upstream feed, writing the cache) and hands
//! back what came of it; a failed fetch is handed back as `None`.

use vstd::prelude::*;
use crate::foreign::chars_of;
use crate::text::{trim, trim_chars};
use crate::query::{NormalizedQuery, normalize_query, is_trending, clean_term, lowered, job_key, job_cache_key};
use crate::jobs::{
    Job, JobView, RawJob, job_views, general_pass, location_pass, wanted_of,
    filter_remoteok_jobs, filter_remoteok_jobs_with_location,
};
use crate::recency::{in_recency_order, keeps_ties_in_order, sort_by_recency};

verus! {

#[derive(PartialEq, Eq, Structural, Clone, Copy, Debug)]
pub enum SearchStage {
    CacheLookup,
    LocationPass,
    GeneralPass,
    StoreResults,
    Finished,
}

#[derive(PartialEq, Eq, Structural, Clone, Copy, Debug)]
pub enum SearchAction {
    /// Read the cache under `cache_key` and hand what is fresh there to `on_cache`.
    LookUpCache,
    /// Fetch the upstream job feed and hand it to `on_feed`.
    FetchJobs,
    /// Store `jobs` in the cache under `cache_key`, then call `on_stored`.
    StoreInCache,
    /// The results are complete.
    Done,
}

pub struct JobSearch {
    pub query: NormalizedQuery,
    pub limit: u32,
    /// The requested location, trimmed; empty where none was asked for.
    pub location: String,
    pub remote_only: bool,
    pub job_type: Option<String>,
    pub cache_key: String,
    pub stage: SearchStage,
    pub jobs: Vec<Job>,
}

/// The general pass runs when remote jobs were asked for, when slots are left, or
/// in trending mode.
pub open spec fn needs_general(remote_only: bool, found: nat, limit: nat, trending: bool) -> bool {
    remote_only || found < limit || trending
}

pub open spec fn wanted_owned(job_type: Option<String>) -> Option<Seq<char>> {
    match job_type {
        Some(j) => Some(lowered(j@)),
        None => None,
    }
}

/// The location that backfilled listings carry when the location pass found nothing.
pub open spec fn backfill_label(location: Seq<char>) -> Seq<char> {
    "Remote (Worldwide, including "@ + location + ")"@
}

pub open spec fn relabeled(s: Seq<JobView>, location: Seq<char>) -> Seq<JobView> {
    s.map_values(|v: JobView| JobView { location: backfill_label(location), ..v })
}

/// The pass that a search not answered from the cache starts with.
pub open spec fn first_pass(location: Seq<char>, remote_only: bool, limit: nat, trending: bool) -> SearchStage {
    if location.len() > 0 {
        SearchStage::LocationPass
    } else if needs_general(remote_only, 0, limit, trending) {
        SearchStage::GeneralPass
    } else {
        SearchStage::Finished
    }
}

/// Where a search goes once no pass is left: fresh results are stored, an empty
/// list leaves the cache untouched.
pub open spec fn settled(found: nat) -> SearchStage {
    if found > 0 {
        SearchStage::StoreResults
    } else {
        SearchStage::Finished
    }
}

/// What the general pass adds: the pass's listings, relabelled where the location
/// pass found nothing, and in trending mode put in recency order.
pub open spec fn general_contribution(
    trending: bool,
    labelled: Seq<JobView>,
    added: Seq<JobView>,
) -> bool {
    if trending {
        &&& added.to_multiset() == labelled.to_multiset()
        &&& in_recency_order(added)
        &&& keeps_ties_in_order(added, labelled)
    } else {
        added == labelled
    }
}

impl JobSearch {
    /// Jobs found so far never outnumber the limit.
    pub open spec fn wf(&self) -> bool {
        &&& self.jobs@.len() <= self.limit
    }

    /// What the general pass finds in `feed` for the slots still open.
    pub open spec fn general_found(&self, feed: Option<Vec<RawJob>>) -> Seq<JobView> {
        let remaining = (self.limit - self.jobs@.len()) as nat;
        match feed {
            Some(f) => general_pass(
                f@,
                self.query.term@,
                self.query.trending,
                wanted_owned(self.job_type),
                remaining,
            ),
            None => Seq::empty(),
        }
    }

    pub open spec fn backfilling(&self) -> bool {
        self.location@.len() > 0 && self.jobs@.len() == 0
    }

    pub open spec fn labelled_general(&self, feed: Option<Vec<RawJob>>) -> Seq<JobView> {
        if self.backfilling() {
            relabeled(self.general_found(feed), self.location@)
        } else {
            self.general_found(feed)
        }
    }

    /// Starts a search, which first asks for the cache.
    pub fn new(
        query: &str,
        limit: u32,
        location: &str,
        remote_only: Option<bool>,
        job_type: Option<&str>,
    ) -> (r: JobSearch)
        ensures
            r.wf(),
            r.query.trending == is_trending(lowered(query@)),
            r.query.term@ == clean_term(lowered(query@)),
            r.limit == limit,
            r.location@ == trim(location@),
            r.remote_only == (remote_only == Some(true)),
            wanted_owned(r.job_type) == wanted_of(job_type),
            r.cache_key@ == job_key(query@, limit, location@, r.remote_only, job_type),
            r.jobs@.len() == 0,
            r.stage == SearchStage::CacheLookup,
    {
        let remote = match remote_only {
            Some(b) => b,
            None => false,
        };
        let q = normalize_query(query);
        let loc = crate::foreign::string_of(&trim_chars(&chars_of(location)));
        let key = job_cache_key(query, limit, location, remote, job_type);
        let jt = match job_type {
            Some(j) => Some(String::from_str(j)),
            None => None,
        };
        JobSearch {
            query: q,
            limit,
            location: loc,
            remote_only: remote,
            job_type: jt,
            cache_key: key,
            stage: SearchStage::CacheLookup,
            jobs: Vec::new(),
        }
    }

    /// What the caller is to do next.
    pub fn next_action(&self) -> (r: SearchAction)
        ensures
            r == match self.stage {
                SearchStage::CacheLookup => SearchAction::LookUpCache,
                SearchStage::LocationPass => SearchAction::FetchJobs,
                SearchStage::GeneralPass => SearchAction::FetchJobs,
                SearchStage::StoreResults => SearchAction::StoreInCache,
                SearchStage::Finished => SearchAction::Done,
            },
    {
        match self.stage {
            SearchStage::CacheLookup => SearchAction::LookUpCache,
            SearchStage::LocationPass => SearchAction::FetchJobs,
            SearchStage::GeneralPass => SearchAction::FetchJobs,
            SearchStage::StoreResults => SearchAction::StoreInCache,
            SearchStage::Finished => SearchAction::Done,
        }
    }

    fn job_type_ref(&self) -> (r: Option<&str>)
        ensures
            wanted_of(r) == wanted_owned(self.job_type),
    {
        match &self.job_type {
            Some(j) => Some(j.as_str()),
            None => None,
        }
    }

    /// Takes what the cache holds fresh under `cache_key`. A hit answers the search
    /// at once, with no upstream fetch and no new write; a miss starts the first pass.
    pub fn on_cache(&mut self, cached: Option<Vec<Job>>)
        requires
            old(self).wf(),
            old(self).stage == SearchStage::CacheLookup,
        ensures
            final(self).wf(),
            final(self).query == old(self).query,
            final(self).limit == old(self).limit,
            final(self).location == old(self).location,
            final(self).remote_only == old(self).remote_only,
            final(self).job_type == old(self).job_type,
            final(self).cache_key == old(self).cache_key,
            match cached {
                Some(c) => {
                    &&& final(self).stage == SearchStage::Finished
                    &&& final(self).jobs@ == if c@.len() <= old(self).limit {
                        c@
                    } else {
                        c@.take(old(self).limit as int)
                    }
                },
                None => {
                    &&& final(self).stage == first_pass(
                        old(self).location@,
                        old(self).remote_only,
                        old(self).limit as nat,
                        old(self).query.trending,
                    )
                    &&& final(self).jobs@ == old(self).jobs@
                },
            },
    {
        match cached {
            Some(c) => {
                let mut c = c;
                c.truncate(self.limit as usize);
                self.jobs = c;
                self.stage = SearchStage::Finished;
            },
            None => {
                self.stage = if !self.location.as_str().is_empty() {
                    SearchStage::LocationPass
                } else if self.remote_only || 0 < self.limit || self.query.trending {
                    SearchStage::GeneralPass
                } else {
                    SearchStage::Finished
                };
            },
        }
    }

    /// Takes the upstream feed that the current pass asked for (`None` where the
    /// fetch failed, which leaves that pass's contribution empty) and moves on.
    pub fn on_feed(&mut self, feed: Option<Vec<RawJob>>)
        requires
            old(self).wf(),
            old(self).stage == SearchStage::LocationPass || old(self).stage
                == SearchStage::GeneralPass,
        ensures
            final(self).wf(),
            final(self).query == old(self).query,
            final(self).limit == old(self).limit,
            final(self).location == old(self).location,
            final(self).remote_only == old(self).remote_only,
            final(self).job_type == old(self).job_type,
            final(self).cache_key == old(self).cache_key,
            old(self).stage == SearchStage::LocationPass ==> {
                &&& job_views(final(self).jobs@) == match feed {
                    Some(f) => location_pass(
                        f@,
                        old(self).query.term@,
                        old(self).location@,
                        wanted_owned(old(self).job_type),
                        old(self).limit as nat,
                    ),
                    None => Seq::empty(),
                }
                &&& final(self).stage == if needs_general(
                    old(self).remote_only,
                    final(self).jobs@.len(),
                    old(self).limit as nat,
                    old(self).query.trending,
                ) {
                    SearchStage::GeneralPass
                } else {
                    settled(final(self).jobs@.len())
                }
            },
            old(self).stage == SearchStage::GeneralPass ==> {
                &&& final(self).stage == settled(final(self).jobs@.len())
                &&& job_views(final(self).jobs@).take(old(self).jobs@.len() as int) == job_views(
                    old(self).jobs@,
                )
                &&& general_contribution(
                    old(self).query.trending,
                    old(self).labelled_general(feed),
                    job_views(final(self).jobs@).skip(old(self).jobs@.len() as int),
                )
            },
            old(self).stage == SearchStage::GeneralPass && old(self).backfilling() ==> forall|i: int|
                0 <= i < final(self).jobs@.len() ==> #[trigger] final(self).jobs@[i]@.location
                    == backfill_label(old(self).location@),
    {
        let jt = self.job_type_ref();
        match self.stage {
            SearchStage::LocationPass => {
                let found = match &feed {
                    Some(f) => filter_remoteok_jobs_with_location(
                        f,
                        self.query.term.as_str(),
                        self.limit as usize,
                        self.location.as_str(),
                        jt,
                    ),
                    None => {
                        let v: Vec<Job> = Vec::new();
                        assert(job_views(v@) =~= Seq::<JobView>::empty());
                        v
                    },
                };
                let n = found.len();
                self.jobs = found;
                self.stage = if self.remote_only || n < self.limit as usize || self.query.trending {
                    SearchStage::GeneralPass
                } else if n > 0 {
                    SearchStage::StoreResults
                } else {
                    SearchStage::Finished
                };
            },
            _ => {
                let ghost old_self = *self;
                let found_before = self.jobs.len();
                let remaining = self.limit as usize - found_before;
                let general = match &feed {
                    Some(f) => filter_remoteok_jobs(f, &self.query, remaining, jt),
                    None => {
                        let v: Vec<Job> = Vec::new();
                        assert(job_views(v@) =~= Seq::<JobView>::empty());
                        v
                    },
                };
                let labelled = if !self.location.as_str().is_empty() && found_before == 0 {
                    relabel_all(general, self.location.as_str())
                } else {
                    general
                };
                assert(job_views(labelled@) == self.labelled_general(feed));
                let added = if self.query.trending {
                    sort_by_recency(labelled)
                } else {
                    labelled
                };
                let ghost before = self.jobs@;
                let mut added = added;
                let ghost added_v = added@;
                assert(added_v.len() <= remaining);
                self.jobs.append(&mut added);
                proof {
                    let v = job_views(self.jobs@);
                    assert(self.jobs@ =~= before + added_v);
                    assert(v.take(before.len() as int) =~= job_views(before));
                    assert(v.skip(before.len() as int) =~= job_views(added_v));
                    if old_self.backfilling() {
                        assert(v.skip(0) =~= v);
                        assert forall|i: int| 0 <= i < self.jobs@.len() implies #[trigger] self.jobs@[i]@.location
                            == backfill_label(old_self.location@) by {
                            lemma_backfill_labels(
                                old_self.query.trending,
                                old_self.general_found(feed),
                                old_self.location@,
                                v,
                                i,
                            );
                            assert(v[i] == self.jobs@[i]@);
                        }
                    }
                }
                self.stage = if self.jobs.len() > 0 {
                    SearchStage::StoreResults
                } else {
                    SearchStage::Finished
                };
            },
        }
    }

    /// Records that the caller stored the results.
    pub fn on_stored(&mut self)
        requires
            old(self).stage == SearchStage::StoreResults,
        ensures
            final(self).stage == SearchStage::Finished,
            final(self).jobs == old(self).jobs,
            final(self).query == old(self).query,
            final(self).limit == old(self).limit,
            final(self).location == old(self).location,
            final(self).remote_only == old(self).remote_only,
            final(self).job_type == old(self).job_type,
            final(self).cache_key == old(self).cache_key,
    {
        self.stage = SearchStage::Finished;
    }

    /// The listings found, at most `limit` of them.
    pub fn results(&self) -> (r: &Vec<Job>)
        requires
            self.wf(),
        ensures
            r@ == self.jobs@,
            r@.len() <= self.limit,
    {
        &self.jobs
    }
}

/// `jobs` with each location replaced by the backfill label for `location`.
pub fn relabel_all(jobs: Vec<Job>, location: &str) -> (r: Vec<Job>)
    ensures
        job_views(r@) == relabeled(job_views(jobs@), location@),
        r@.len() == jobs@.len(),
{
    let label = String::from_str("Remote (Worldwide, including ").concat(location).concat(")");
    let mut rest = jobs;
    let mut out: Vec<Job> = Vec::new();
    let ghost all = job_views(jobs@);
    let ghost n = jobs@.len();
    assert(jobs@.skip(0) =~= jobs@);
    while rest.len() > 0
        invariant
            out@.len() + rest@.len() == n,
            all == job_views(jobs@),
            n == jobs@.len(),
            rest@ == jobs@.skip(out@.len() as int),
            job_views(out@) == relabeled(all.take(out@.len() as int), location@),
            label@ == backfill_label(location@),
        decreases rest@.len(),
    {
        let ghost i: int = out@.len() as int;
        let ghost before = out@;
        let mut j = rest.remove(0);
        assert(j == jobs@[i as int]);
        j.location = label.clone();
        out.push(j);
        assert(jobs@.skip(i as int).remove(0) =~= jobs@.skip(i + 1));
        assert(job_views(out@) =~= relabeled(all.take(i + 1), location@)) by {
            assert(job_views(out@) =~= job_views(before).push(j@));
            assert(all.take(i + 1) =~= all.take(i as int).push(all[i as int]));
        }
    }
    assert(all.take(n as int) =~= all);
    out
}

/// The backfill law: where the location pass found nothing, every listing that the
/// general pass adds carries the backfill label of the requested location.
pub proof fn lemma_backfill_labels(
    trending: bool,
    general: Seq<JobView>,
    location: Seq<char>,
    added: Seq<JobView>,
    i: int,
)
    requires
        general_contribution(trending, relabeled(general, location), added),
        0 <= i < added.len(),
    ensures
        added[i].location == backfill_label(location),
{
    let l = relabeled(general, location);
    if trending {
        assert(added.to_multiset().count(added[i]) > 0) by {
            broadcast use vstd::seq_lib::group_to_multiset_ensures;
            assert(added.contains(added[i]));
        }
        assert(l.to_multiset().count(added[i]) > 0);
        broadcast use vstd::seq_lib::group_to_multiset_ensures;
        assert(l.contains(added[i]));
        let k = choose|k: int| 0 <= k < l.len() && l[k] == added[i];
        assert(l[k].location == backfill_label(location));
    }
}

} // verus!
