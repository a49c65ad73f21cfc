//! An in-memory cache store, and a driver that runs a query against it and
//! an in-memory record store.

use crate::envelope::{CacheValue, TTL_SECONDS};
use crate::flow::{Action, CacheRead, QueryFlow};
use crate::key::cache_key_of;
use crate::lookup::{is_usable, lookup_of};
use crate::query::{AppError, Product, QueryPayload};
use crate::records::{lemma_alike_lookups, lookup_result, MemoryRecords};
use vstd::prelude::*;

verus! {

/// The envelope stored under `key`: the latest one written.
pub open spec fn entry_for(entries: Seq<(String, CacheValue)>, key: Seq<char>) -> Option<CacheValue>
    decreases entries.len(),
{
    if entries.len() == 0 {
        None
    } else if entries.last().0@ == key {
        Some(entries.last().1)
    } else {
        entry_for(entries.drop_last(), key)
    }
}

/// The entries with every one under `key` taken out.
pub open spec fn without(entries: Seq<(String, CacheValue)>, key: Seq<char>) -> Seq<(String, CacheValue)>
    decreases entries.len(),
{
    if entries.len() == 0 {
        entries
    } else if entries.last().0@ == key {
        without(entries.drop_last(), key)
    } else {
        without(entries.drop_last(), key).push(entries.last())
    }
}

proof fn lemma_without(entries: Seq<(String, CacheValue)>, key: Seq<char>, k: Seq<char>)
    ensures
        entry_for(without(entries, key), k) == if k == key {
            None
        } else {
            entry_for(entries, k)
        },
    decreases entries.len(),
{
    if entries.len() > 0 {
        lemma_without(entries.drop_last(), key, k);
        if entries.last().0@ != key {
            assert(without(entries, key).drop_last() =~= without(entries.drop_last(), key));
        }
    }
}

/// Copies a list of records.
fn copy_products(v: &Vec<Product>) -> (r: Vec<Product>)
    ensures
        r@ == v@,
{
    let r = v.clone();
    assert forall|i: int| 0 <= i < v@.len() implies r@[i] == v@[i] by {
        assert(cloned::<Product>(v[i], r[i]));
    }
    assert(r@ =~= v@);
    r
}

/// Envelopes held in memory under their keys; a later write shadows an
/// earlier one under the same key.
pub struct MemoryCache {
    pub entries: Vec<(String, CacheValue)>,
}

impl MemoryCache {
    pub fn new() -> (r: Self)
        ensures
            r.entries@.len() == 0,
    {
        MemoryCache { entries: Vec::new() }
    }

    /// Reads the envelope under `key`: a copy of it, or `Absent`.
    pub fn get(&self, key: &String) -> (r: CacheRead)
        ensures
            match entry_for(self.entries@, key@) {
                None => r is Absent,
                Some(v) => r matches CacheRead::Found(w) && w.product@ == v.product@ && w.ttl
                    == v.ttl,
            },
    {
        let mut i = self.entries.len();
        assert(self.entries@.take(i as int) =~= self.entries@);
        while i > 0
            invariant
                i <= self.entries@.len(),
                entry_for(self.entries@, key@) == entry_for(self.entries@.take(i as int), key@),
            decreases i,
        {
            let t = Ghost(self.entries@.take(i as int));
            assert(t@.drop_last() =~= self.entries@.take(i - 1));
            let e = &self.entries[i - 1];
            if e.0.eq(key) {
                return CacheRead::Found(CacheValue { product: copy_products(&e.1.product), ttl: e.1.ttl });
            }
            i = i - 1;
        }
        CacheRead::Absent
    }

    /// Stores an envelope under `key`.
    pub fn set(&mut self, key: String, value: CacheValue)
        ensures
            final(self).entries@ == old(self).entries@.push((key, value)),
            entry_for(final(self).entries@, key@) == Some(value),
            forall|k: Seq<char>|
                k != key@ ==> #[trigger] entry_for(final(self).entries@, k) == entry_for(
                    old(self).entries@,
                    k,
                ),
    {
        let ghost before = self.entries@;
        self.entries.push((key, value));
        assert(self.entries@.drop_last() =~= before);
    }

    /// Deletes every envelope under `key`.
    pub fn delete(&mut self, key: &String)
        ensures
            final(self).entries@ == without(old(self).entries@, key@),
            forall|k: Seq<char>|
                #![trigger entry_for(final(self).entries@, k)]
                entry_for(final(self).entries@, k) == if k == key@ {
                    None
                } else {
                    entry_for(old(self).entries@, k)
                },
    {
        let ghost all = self.entries@;
        let ghost mut j: int = 0;
        let mut i: usize = 0;
        while i < self.entries.len()
            invariant
                0 <= j <= all.len(),
                all == old(self).entries@,
                i == without(all.take(j), key@).len(),
                self.entries@ == without(all.take(j), key@) + all.subrange(j, all.len() as int),
            decreases self.entries@.len() - i,
        {
            let ghost before = self.entries@;
            let ghost w = without(all.take(j), key@);
            proof {
                assert(all.take(j + 1).drop_last() =~= all.take(j));
                assert(before[i as int] == all[j]);
            }
            if self.entries[i].0.eq(key) {
                let _ = self.entries.remove(i);
                assert(self.entries@ =~= without(all.take(j + 1), key@) + all.subrange(
                    j + 1,
                    all.len() as int,
                ));
            } else {
                i = i + 1;
                assert(self.entries@ =~= without(all.take(j + 1), key@) + all.subrange(
                    j + 1,
                    all.len() as int,
                ));
            }
            proof {
                j = j + 1;
            }
        }
        proof {
            assert(all.subrange(j, all.len() as int).len() == 0);
            assert(j == all.len());
            assert(all.take(j) =~= all);
            assert(self.entries@ =~= without(all, key@));
        }
        proof {
            assert forall|k: Seq<char>| #[trigger] entry_for(self.entries@, k) == if k == key@ {
                None
            } else {
                entry_for(old(self).entries@, k)
            } by {
                lemma_without(old(self).entries@, key@, k);
            }
        }
    }
}

/// A count that goes up by one and stops at its largest value.
pub open spec fn counted(n: u64) -> int {
    if n < u64::MAX {
        n + 1
    } else {
        n as int
    }
}

/// Runs one query at `now` against an in-memory cache and record store.
///
/// A payload with no usable field is refused and touches neither store. A
/// fresh envelope under the payload's key is answered with no record-store
/// lookup. Otherwise a stale envelope is deleted, the record store is asked,
/// and what it finds is written back under the key and answered; when it
/// finds nothing the answer is `DataNotFound` and nothing is written.
pub fn run_query(
    payload: &QueryPayload,
    cache: &mut MemoryCache,
    records: &mut MemoryRecords,
    now: i64,
) -> (r: Result<Vec<Product>, AppError>)
    requires
        now <= i64::MAX - TTL_SECONDS,
    ensures
        final(records).products == old(records).products,
        !is_usable(*payload) ==> {
            &&& r == Err::<Vec<Product>, AppError>(AppError::InvalidQuery)
            &&& final(cache).entries@ == old(cache).entries@
            &&& final(records).lookups == old(records).lookups
        },
        is_usable(*payload) ==> {
            let key = cache_key_of(*payload);
            let held = entry_for(old(cache).entries@, key);
            if held is Some && now < held->Some_0.ttl {
                &&& r matches Ok(x) && x@ == held->Some_0.product@
                &&& final(cache).entries@ == old(cache).entries@
                &&& final(records).lookups == old(records).lookups
            } else {
                let found = lookup_result(lookup_of(*payload), old(records).products@);
                &&& final(records).lookups == counted(old(records).lookups)
                &&& forall|k: Seq<char>|
                    k != key ==> #[trigger] entry_for(final(cache).entries@, k) == entry_for(
                        old(cache).entries@,
                        k,
                    )
                &&& if found.len() == 0 {
                    &&& r == Err::<Vec<Product>, AppError>(AppError::DataNotFound)
                    &&& entry_for(final(cache).entries@, key) is None
                } else {
                    &&& r matches Ok(x) && x@ == found
                    &&& entry_for(final(cache).entries@, key) matches Some(e) && e.product@ == found
                        && e.ttl == now + TTL_SECONDS
                }
            }
        },
{
    let flow = match QueryFlow::start(payload) {
        Ok(f) => f,
        Err(e) => {
            return Err(e);
        },
    };
    proof {
        lemma_alike_lookups(flow.lookup, lookup_of(*payload), old(records).products@);
    }
    let read = cache.get(&flow.key);
    let mut action = flow.after_read(read, now);
    if let Action::Evict = action {
        cache.delete(&flow.key);
        action = flow.after_evict(true);
    }
    if let Action::Fetch = action {
        let found = records.find(&flow.lookup);
        proof {
            assert(found@.take(found@.len() as int) =~= found@);
        }
        action = flow.after_fetch(Some(found), now);
    }
    match action {
        Action::WriteBack(value) => {
            let stored = CacheValue { product: copy_products(&value.product), ttl: value.ttl };
            cache.set(flow.key.clone(), stored);
            flow.after_write_back(value, true)
        },
        Action::Reply(r) => r,
        _ => Err(AppError::InternalServerError),
    }
}

} // verus!
