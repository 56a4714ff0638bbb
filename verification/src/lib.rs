//! Pre-derived factor instances: a cache of hierarchical deterministic
//! factor instances keyed by factor source and index agnostic path, the
//! assignment of next derivation entity indices from a profile, a cache and
//! ephemeral offsets, and the bookkeeping of which instances to use directly
//! and which to keep in the cache.
#![allow(unused_imports)]

pub mod types;
pub mod samples;
pub mod gateway;
pub mod test_gateway;
pub mod recovery;
pub mod entity_recovery;
pub mod factor_instances_provider;
pub mod pre_derived_keys_cache;
pub mod playground;
