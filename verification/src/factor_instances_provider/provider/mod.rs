pub mod factor_instances_cache;
pub mod outcome;
pub mod fill_cache;
pub mod provider;
pub mod cache;
pub mod query;
