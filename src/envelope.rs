//! The cache envelope: records stored together with the time they expire.

use crate::query::Product;
use vstd::prelude::*;

verus! {

/// Seconds for which a written envelope is served.
pub const TTL_SECONDS: i64 = 60;

/// Records as held in the cache, with the second from which they are stale.
#[derive(Debug, Clone)]
pub struct CacheValue {
    pub product: Vec<Product>,
    pub ttl: i64,
}

/// Whether an envelope may still be served at `now`.
pub open spec fn is_fresh_at(v: CacheValue, now: int) -> bool {
    now < v.ttl
}

impl CacheValue {
    /// Wraps records written at `now`; they expire `TTL_SECONDS` later.
    pub fn new(product: Vec<Product>, now: i64) -> (r: Self)
        requires
            now <= i64::MAX - TTL_SECONDS,
        ensures
            r.product == product,
            r.ttl == now + TTL_SECONDS,
    {
        Self { product, ttl: now + TTL_SECONDS }
    }

    /// Whether the envelope may still be served at `now`.
    pub fn is_fresh(&self, now: i64) -> (r: bool)
        ensures
            r == is_fresh_at(*self, now as int),
    {
        now < self.ttl
    }
}

/// An envelope written at `t` is fresh at every `now` before `t + TTL_SECONDS`
/// and stale at every later one.
pub proof fn lemma_fresh_until_expiry(product: Vec<Product>, t: i64)
    requires
        t <= i64::MAX - TTL_SECONDS,
    ensures
        forall|now: int|
            #![trigger is_fresh_at(CacheValue { product, ttl: (t + TTL_SECONDS) as i64 }, now)]
            is_fresh_at(CacheValue { product, ttl: (t + TTL_SECONDS) as i64 }, now) <==> now < t
                + TTL_SECONDS,
{
}

} // verus!
