//! A key → time-stamped payload store whose entries expire after a fixed time.
//!
//! Payloads are kept in serialized form, so one store serves every record shape.
//! Expired entries are not swept: they read as absent and a later write replaces them.

use vstd::prelude::*;
use crate::foreign::unix_now;

verus! {

/// How long an entry stays readable: four hours, in seconds.
pub const CACHE_TTL_SECS: u64 = 4 * 60 * 60;

/// A payload written at `created_at` can still be read at `now`.
pub open spec fn is_fresh(created_at: u64, now: u64) -> bool {
    now < created_at + CACHE_TTL_SECS
}

/// What a read of `key` at `now` yields from the store whose contents are `m`.
pub open spec fn lookup(m: Map<Seq<char>, (Seq<char>, u64)>, key: Seq<char>, now: u64) -> Option<
    Seq<char>,
> {
    if m.contains_key(key) && is_fresh(m[key].1, now) {
        Some(m[key].0)
    } else {
        None
    }
}

pub open spec fn opt_view(o: Option<String>) -> Option<Seq<char>> {
    match o {
        Some(s) => Some(s@),
        None => None,
    }
}

struct CacheEntry {
    key: String,
    payload: String,
    created_at: u64,
}

pub struct CacheStore {
    entries: Vec<CacheEntry>,
}

spec fn entry_view(e: CacheEntry) -> (Seq<char>, Seq<char>, u64) {
    (e.key@, e.payload@, e.created_at)
}

spec fn entries_view(s: Seq<CacheEntry>) -> Seq<(Seq<char>, Seq<char>, u64)> {
    s.map_values(|e: CacheEntry| entry_view(e))
}

spec fn map_of(s: Seq<(Seq<char>, Seq<char>, u64)>) -> Map<Seq<char>, (Seq<char>, u64)>
    decreases s.len(),
{
    if s.len() == 0 {
        Map::empty()
    } else {
        map_of(s.drop_last()).insert(s.last().0, (s.last().1, s.last().2))
    }
}

spec fn keys_unique(s: Seq<(Seq<char>, Seq<char>, u64)>) -> bool {
    forall|i: int, j: int| 0 <= i < s.len() && 0 <= j < s.len() && i != j ==> s[i].0 != s[j].0
}

proof fn lemma_map_of_dom(s: Seq<(Seq<char>, Seq<char>, u64)>, k: Seq<char>)
    ensures
        map_of(s).contains_key(k) <==> exists|i: int| 0 <= i < s.len() && s[i].0 == k,
    decreases s.len(),
{
    if s.len() > 0 {
        lemma_map_of_dom(s.drop_last(), k);
        if map_of(s).contains_key(k) && k != s.last().0 {
            let i = choose|i: int| 0 <= i < s.drop_last().len() && s.drop_last()[i].0 == k;
            assert(s[i].0 == k);
        }
        if exists|i: int| 0 <= i < s.len() && s[i].0 == k {
            let i = choose|i: int| 0 <= i < s.len() && s[i].0 == k;
            if i < s.len() - 1 {
                assert(s.drop_last()[i].0 == k);
            }
        }
    }
}

proof fn lemma_map_of_index(s: Seq<(Seq<char>, Seq<char>, u64)>, i: int)
    requires
        keys_unique(s),
        0 <= i < s.len(),
    ensures
        map_of(s).contains_key(s[i].0),
        map_of(s)[s[i].0] == (s[i].1, s[i].2),
    decreases s.len(),
{
    if i < s.len() - 1 {
        let t = s.drop_last();
        assert(t[i] == s[i]);
        lemma_map_of_index(t, i);
        assert(s.last().0 != s[i].0);
    }
}

proof fn lemma_map_of_update(s: Seq<(Seq<char>, Seq<char>, u64)>, i: int, e: (Seq<char>, Seq<char>, u64))
    requires
        keys_unique(s),
        0 <= i < s.len(),
        e.0 == s[i].0,
    ensures
        map_of(s.update(i, e)) == map_of(s).insert(e.0, (e.1, e.2)),
    decreases s.len(),
{
    let u = s.update(i, e);
    if i == s.len() - 1 {
        assert(u.drop_last() =~= s.drop_last());
        lemma_map_of_index(s, i);
        assert(map_of(u) =~= map_of(s).insert(e.0, (e.1, e.2)));
    } else {
        assert(u.drop_last() =~= s.drop_last().update(i, e));
        lemma_map_of_update(s.drop_last(), i, e);
        assert(s.last().0 != e.0);
        assert(map_of(u) =~= map_of(s).insert(e.0, (e.1, e.2)));
    }
}

proof fn lemma_map_of_remove(s: Seq<(Seq<char>, Seq<char>, u64)>, i: int)
    requires
        keys_unique(s),
        0 <= i < s.len(),
    ensures
        map_of(s.remove(i)) == map_of(s).remove(s[i].0),
    decreases s.len(),
{
    let r = s.remove(i);
    if i == s.len() - 1 {
        assert(r =~= s.drop_last());
        lemma_map_of_dom(s.drop_last(), s[i].0);
        assert(map_of(r) =~= map_of(s).remove(s[i].0));
    } else {
        assert(r.drop_last() =~= s.drop_last().remove(i));
        assert(r.last() == s.last());
        lemma_map_of_remove(s.drop_last(), i);
        assert(s.last().0 != s[i].0);
        assert(map_of(r) =~= map_of(s).remove(s[i].0));
    }
}

impl View for CacheStore {
    type V = Map<Seq<char>, (Seq<char>, u64)>;

    /// Each key with its payload and the second it was written at.
    closed spec fn view(&self) -> Map<Seq<char>, (Seq<char>, u64)> {
        map_of(entries_view(self.entries@))
    }
}

impl CacheStore {
    /// No key is stored twice.
    pub closed spec fn wf(&self) -> bool {
        keys_unique(entries_view(self.entries@))
    }

    pub fn new() -> (r: CacheStore)
        ensures
            r.wf(),
            r@ == Map::<Seq<char>, (Seq<char>, u64)>::empty(),
    {
        let r = CacheStore { entries: Vec::new() };
        assert(entries_view(r.entries@) =~= Seq::empty());
        r
    }

    /// The index of the entry under `key`, if any.
    fn position(&self, key: &String) -> (r: Option<usize>)
        requires
            self.wf(),
        ensures
            match r {
                Some(i) => i < self.entries@.len() && self.entries@[i as int].key@ == key@,
                None => !self@.contains_key(key@),
            },
    {
        let mut i: usize = 0;
        while i < self.entries.len()
            invariant
                i <= self.entries@.len(),
                forall|j: int| 0 <= j < i ==> self.entries@[j].key@ != key@,
            decreases self.entries@.len() - i,
        {
            if self.entries[i].key == *key {
                return Some(i);
            }
            i = i + 1;
        }
        proof {
            let s = entries_view(self.entries@);
            lemma_map_of_dom(s, key@);
            assert forall|j: int| 0 <= j < s.len() implies s[j].0 != key@ by {
                assert(s[j] == entry_view(self.entries@[j]));
            }
        }
        None
    }

    /// The payload under `key` if it was written less than the time to live before `now`.
    pub fn get_at(&self, key: &str, now: u64) -> (r: Option<String>)
        requires
            self.wf(),
        ensures
            opt_view(r) == lookup(self@, key@, now),
    {
        let k = String::from_str(key);
        match self.position(&k) {
            Some(i) => {
                let e = &self.entries[i];
                proof {
                    let s = entries_view(self.entries@);
                    assert(s[i as int] == entry_view(self.entries@[i as int]));
                    lemma_map_of_index(s, i as int);
                }
                let fresh = if now >= e.created_at {
                    now - e.created_at < CACHE_TTL_SECS
                } else {
                    true
                };
                if fresh {
                    Some(e.payload.clone())
                } else {
                    None
                }
            },
            None => None,
        }
    }

    /// Stores `payload` under `key` as written at `now`, replacing what was there.
    pub fn set_at(&mut self, key: &str, payload: &str, now: u64)
        requires
            old(self).wf(),
        ensures
            final(self).wf(),
            final(self)@ == old(self)@.insert(key@, (payload@, now)),
    {
        let k = String::from_str(key);
        let e = CacheEntry { key: String::from_str(key), payload: String::from_str(payload), created_at: now };
        let ghost ev = entry_view(e);
        let ghost s = entries_view(self.entries@);
        match self.position(&k) {
            Some(i) => {
                self.entries.set(i, e);
                proof {
                    assert(s[i as int] == entry_view(old(self).entries@[i as int]));
                    assert(entries_view(self.entries@) =~= s.update(i as int, ev));
                    lemma_map_of_update(s, i as int, ev);
                }
            },
            None => {
                self.entries.push(e);
                proof {
                    let t = entries_view(self.entries@);
                    assert(t =~= s.push(ev));
                    assert(t.drop_last() =~= s);
                    lemma_map_of_dom(s, key@);
                    assert forall|a: int, b: int|
                        0 <= a < t.len() && 0 <= b < t.len() && a != b implies t[a].0 != t[b].0 by {
                        if a == t.len() - 1 {
                            assert(s[b].0 == t[b].0);
                        } else if b == t.len() - 1 {
                            assert(s[a].0 == t[a].0);
                        }
                    }
                }
            },
        }
    }

    /// Drops the entry under `key`, if any.
    pub fn remove(&mut self, key: &str)
        requires
            old(self).wf(),
        ensures
            final(self).wf(),
            final(self)@ == old(self)@.remove(key@),
    {
        let k = String::from_str(key);
        let ghost s = entries_view(self.entries@);
        match self.position(&k) {
            Some(i) => {
                self.entries.remove(i);
                proof {
                    assert(s[i as int] == entry_view(old(self).entries@[i as int]));
                    assert(entries_view(self.entries@) =~= s.remove(i as int));
                    lemma_map_of_remove(s, i as int);
                    let t = s.remove(i as int);
                    assert forall|a: int, b: int|
                        0 <= a < t.len() && 0 <= b < t.len() && a != b implies t[a].0 != t[b].0 by {
                        let a2 = if a < i { a } else { a + 1 };
                        let b2 = if b < i { b } else { b + 1 };
                        assert(t[a] == s[a2]);
                        assert(t[b] == s[b2]);
                    }
                }
            },
            None => {
                assert(self@ =~= old(self)@.remove(key@));
            },
        }
    }

    /// Drops every entry.
    pub fn clear(&mut self)
        ensures
            final(self).wf(),
            final(self)@ == Map::<Seq<char>, (Seq<char>, u64)>::empty(),
    {
        self.entries.clear();
        assert(entries_view(self.entries@) =~= Seq::empty());
    }
}

/// The payload under `key`, if it is still fresh by the clock. Whatever the clock
/// reads, a payload comes back only from an entry under `key`, and none comes back
/// where there is no such entry.
pub fn get_cache(store: &CacheStore, key: &str) -> (r: Option<String>)
    requires
        store.wf(),
    ensures
        exists|now: u64| opt_view(r) == lookup(store@, key@, now),
        !store@.contains_key(key@) ==> r is None,
        r is Some ==> store@.contains_key(key@) && opt_view(r) == Some(store@[key@].0),
{
    let now = unix_now();
    store.get_at(key, now)
}

/// Stores `data` under `key`, stamped with the clock's current second.
pub fn set_cache(store: &mut CacheStore, key: &str, data: &str)
    requires
        old(store).wf(),
    ensures
        final(store).wf(),
        exists|now: u64| final(store)@ == old(store)@.insert(key@, (data@, now)),
{
    let now = unix_now();
    store.set_at(key, data, now);
}

/// Drops every entry of the store.
pub fn clear_cache(store: &mut CacheStore)
    ensures
        final(store).wf(),
        final(store)@ == Map::<Seq<char>, (Seq<char>, u64)>::empty(),
{
    store.clear();
}

/// Drops the entry under exactly `key`, if any.
pub fn remove_cache(store: &mut CacheStore, key: &str)
    requires
        old(store).wf(),
    ensures
        final(store).wf(),
        final(store)@ == old(store)@.remove(key@),
{
    store.remove(key);
}

/// A payload written at `written` reads back unchanged at every `now` before
/// `written` plus the time to live, and reads as absent from then on.
pub proof fn lemma_ttl(
    m: Map<Seq<char>, (Seq<char>, u64)>,
    key: Seq<char>,
    payload: Seq<char>,
    written: u64,
    now: u64,
)
    requires
        written <= now,
    ensures
        now < written + CACHE_TTL_SECS ==> lookup(m.insert(key, (payload, written)), key, now)
            == Some(payload),
        now >= written + CACHE_TTL_SECS ==> lookup(m.insert(key, (payload, written)), key, now)
            is None,
{
}

} // verus!
