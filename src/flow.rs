//! The cache-aside decisions of one query.
//!
//! A driver that owns the cache store and the record store runs a
//! [`QueryFlow`]: it reads the flow's key from the cache, hands what it read
//! to [`QueryFlow::after_read`], and carries out each [`Action`] in turn,
//! handing the outcome back to the matching `after_*` method, until an action
//! is a reply.

use crate::envelope::{is_fresh_at, CacheValue, TTL_SECONDS};
use crate::key::{cache_key_of, get_hash_key};
use crate::lookup::{cap_of, is_lookup_for, is_usable, lookup_for, Lookup, NAME_MATCH_LIMIT};
use crate::query::{AppError, Product, QueryPayload};
use vstd::prelude::*;

verus! {

/// What the driver read under the flow's key.
#[derive(Debug, Clone)]
pub enum CacheRead {
    /// No entry.
    Absent,
    /// An entry, decoded.
    Found(CacheValue),
    /// The cache store failed, or the entry could not be decoded.
    Failed,
}

/// What the driver does next.
#[derive(Debug)]
pub enum Action {
    /// Delete the flow's key from the cache, then call `after_evict`.
    Evict,
    /// Run the flow's lookup on the record store, then call `after_fetch`.
    Fetch,
    /// Store the envelope under the flow's key, then call `after_write_back`.
    WriteBack(CacheValue),
    /// Answer the caller; the query is over.
    Reply(Result<Vec<Product>, AppError>),
}

/// One query in progress: its cache key and its record-store lookup.
#[derive(Debug, Clone)]
pub struct QueryFlow {
    pub key: String,
    pub lookup: Lookup,
}

/// The action that follows a cache read at `now`.
pub open spec fn read_action(read: CacheRead, now: int) -> Action {
    match read {
        CacheRead::Absent => Action::Fetch,
        CacheRead::Found(v) => if is_fresh_at(v, now) {
            Action::Reply(Ok(v.product))
        } else {
            Action::Evict
        },
        CacheRead::Failed => Action::Reply(Err(AppError::InternalServerError)),
    }
}

/// The action that follows deleting a stale entry.
pub open spec fn evict_action(deleted: bool) -> Action {
    if deleted {
        Action::Fetch
    } else {
        Action::Reply(Err(AppError::InternalServerError))
    }
}

/// Whether `r` is the action that follows a record-store answer at `now`:
/// a failure is internal, nothing found is reported and not cached, and
/// found records, up to the lookup's cap, are written back.
pub open spec fn is_fetch_action(lookup: Lookup, found: Option<Vec<Product>>, now: int, r: Action) -> bool {
    match found {
        None => r == Action::Reply(Err::<Vec<Product>, AppError>(AppError::InternalServerError)),
        Some(v) => if v@.len() == 0 {
            r == Action::Reply(Err::<Vec<Product>, AppError>(AppError::DataNotFound))
        } else {
            r matches Action::WriteBack(e) && e.ttl == now + TTL_SECONDS && e.product@ == v@.take(
                if v@.len() < cap_of(lookup) { v@.len() as int } else { cap_of(lookup) as int },
            )
        },
    }
}

/// The answer once the written-back envelope has been handed to the cache.
pub open spec fn write_back_reply(value: CacheValue, stored: bool) -> Result<Vec<Product>, AppError> {
    Ok(value.product)
}

impl QueryFlow {
    /// Starts a query. A payload with no usable field is refused before any
    /// store is touched; otherwise the flow holds the payload's cache key and
    /// lookup, and the driver's first step is to read that key.
    pub fn start(payload: &QueryPayload) -> (r: Result<QueryFlow, AppError>)
        ensures
            match r {
                Ok(f) => is_usable(*payload) && f.key@ == cache_key_of(*payload) && is_lookup_for(
                    *payload,
                    f.lookup,
                ),
                Err(e) => e == AppError::InvalidQuery && !is_usable(*payload),
            },
    {
        let lookup = match lookup_for(payload) {
            Ok(l) => l,
            Err(e) => {
                return Err(e);
            },
        };
        match get_hash_key(payload) {
            Ok(key) => Ok(QueryFlow { key, lookup }),
            Err(_) => Err(AppError::InternalServerError),
        }
    }

    /// Decides on what was read under the key at `now`: a fresh envelope is
    /// served, a stale one is evicted, an absent one sends the query to the
    /// record store, and a failed read fails the query.
    pub fn after_read(&self, read: CacheRead, now: i64) -> (r: Action)
        ensures
            r == read_action(read, now as int),
    {
        match read {
            CacheRead::Absent => Action::Fetch,
            CacheRead::Found(v) => if v.is_fresh(now) {
                Action::Reply(Ok(v.product))
            } else {
                Action::Evict
            },
            CacheRead::Failed => Action::Reply(Err(AppError::InternalServerError)),
        }
    }

    /// Decides on the deletion of a stale entry.
    pub fn after_evict(&self, deleted: bool) -> (r: Action)
        ensures
            r == evict_action(deleted),
    {
        if deleted {
            Action::Fetch
        } else {
            Action::Reply(Err(AppError::InternalServerError))
        }
    }

    /// Decides on the record store's answer at `now` (`None` where it failed).
    pub fn after_fetch(&self, found: Option<Vec<Product>>, now: i64) -> (r: Action)
        requires
            now <= i64::MAX - TTL_SECONDS,
        ensures
            is_fetch_action(self.lookup, found, now as int, r),
    {
        match found {
            None => Action::Reply(Err(AppError::InternalServerError)),
            Some(v) => {
                if v.len() == 0 {
                    Action::Reply(Err(AppError::DataNotFound))
                } else {
                    let cap = match &self.lookup {
                        Lookup::ById { .. } => 1,
                        Lookup::ByName { limit, .. } => *limit,
                    };
                    let mut kept = v;
                    if cap < kept.len() {
                        kept.truncate(cap);
                    }
                    assert(kept@ =~= v@.take(
                        if v@.len() < cap_of(self.lookup) { v@.len() as int } else { cap_of(self.lookup) as int },
                    ));
                    Action::WriteBack(CacheValue::new(kept, now))
                }
            },
        }
    }

    /// The answer after a write-back. The records are returned whether or not
    /// the cache accepted them: a failed write-back costs a later cache miss,
    /// not this answer, and the driver reports it on its own.
    pub fn after_write_back(&self, value: CacheValue, stored: bool) -> (r: Result<Vec<Product>, AppError>)
        ensures
            r == write_back_reply(value, stored),
    {
        Ok(value.product)
    }
}

/// A write-back followed, before the envelope expires, by a read of what was
/// written is a cache hit: it answers the records written, which is the
/// answer of the query that wrote them, and calls for no record-store lookup.
pub proof fn lemma_write_back_then_hit(
    lookup: Lookup,
    found: Vec<Product>,
    t: i64,
    written: Action,
    now: i64,
    stored: bool,
)
    requires
        is_fetch_action(lookup, Some(found), t as int, written),
        found@.len() > 0,
        now < t + TTL_SECONDS,
    ensures
        written matches Action::WriteBack(e) && read_action(CacheRead::Found(e), now as int)
            == Action::Reply(write_back_reply(e, stored)),
{
}

/// Reading a stale envelope calls for deleting it, and once it is deleted
/// the query goes on to the record store.
pub proof fn lemma_stale_read_evicts(v: CacheValue, now: i64)
    requires
        now >= v.ttl,
    ensures
        read_action(CacheRead::Found(v), now as int) == Action::Evict,
        evict_action(true) == Action::Fetch,
{
}

/// A record-store lookup that finds nothing is reported as not found and
/// never written to the cache.
pub proof fn lemma_empty_result_not_cached(lookup: Lookup, found: Vec<Product>, now: i64, r: Action)
    requires
        found@.len() == 0,
        is_fetch_action(lookup, Some(found), now as int, r),
    ensures
        !(r is WriteBack),
        r == Action::Reply(Err::<Vec<Product>, AppError>(AppError::DataNotFound)),
{
}

/// A lookup by identifier that finds a record answers exactly that record;
/// a lookup by display name answers at most `NAME_MATCH_LIMIT` records,
/// however many match.
pub proof fn lemma_lookup_result_capped(
    p: QueryPayload,
    lookup: Lookup,
    found: Vec<Product>,
    now: i64,
    r: Action,
)
    requires
        is_lookup_for(p, lookup),
        is_fetch_action(lookup, Some(found), now as int, r),
        found@.len() > 0,
    ensures
        r matches Action::WriteBack(e) && write_back_reply(e, true) == Ok::<Vec<Product>, AppError>(
            e.product,
        ) && (lookup is ById ==> e.product@ == seq![found@[0]]) && (lookup is ByName
            ==> e.product@.len() <= NAME_MATCH_LIMIT),
{
    if let Action::WriteBack(e) = r {
        if lookup is ById {
            assert(e.product@ =~= seq![found@[0]]);
        }
    }
}

} // verus!
