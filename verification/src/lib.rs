//! An in-memory fake Kubernetes API server for testing controllers and
//! operators without a running cluster.
//!
//! Objects are stored as schemaless JSON documents in a versioned,
//! multi-tenant store with optimistic concurrency, status-subresource
//! isolation, selector filtering, merge and JSON patching, immutability
//! enforcement and optional schema validation.

pub mod builder;
pub mod client;
pub mod client_utils;
pub mod discovery;
pub mod dispatch;
pub mod error;
pub mod fields;
pub mod immutable;
pub mod json;
pub mod jsonpatch;
pub mod meta;
pub mod patch;
pub mod registry;
pub mod selector;
pub mod serialize;
pub mod strutil;
pub mod tracker;
pub mod validator;

use vstd::prelude::*;

verus! {

/// Increment a generation counter; an absent generation counts as zero.
pub fn increment_generation(current: Option<i64>) -> (r: i64)
    requires
        current is Some ==> current->0 < i64::MAX,
    ensures
        r == match current {
            Some(g) => g + 1,
            None => 1,
        },
{
    match current {
        Some(g) => g + 1,
        None => 1,
    }
}

} // verus!
