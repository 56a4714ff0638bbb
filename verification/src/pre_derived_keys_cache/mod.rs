pub mod requests;
pub mod cache_outcome;
pub mod pre_derived_keys_cache;
