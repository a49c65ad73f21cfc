//! Product lookups served cache-aside: a derived cache key, a time-boxed
//! cache envelope with lazy expiry, and the decisions that combine a cache
//! store and a record store into one query.

pub mod query;
pub mod key;
pub mod envelope;
pub mod lookup;
pub mod flow;
pub mod records;
pub mod store;
