//! The operations a write-ahead log records.
use vstd::prelude::*;
use crate::kv::value::Value;

verus! {

/// A change to the store: a value put under a key, with an optional time to live in
/// seconds, or a key deleted.
#[derive(Debug)]
pub enum WalOp {
    Put { key: String, value: Value, ttl_secs: Option<u64> },
    Del { key: String },
}

} // verus!
