pub mod agnostic_paths;
pub mod next_index_assigner;
pub mod provider;
pub mod mixed;
pub mod network_cache;
pub mod network_agnostic;
pub mod newly_derived;
pub mod next_derivation_index_analyzer;
pub mod derive_more;
pub mod split_cache_response;
pub mod additional_derivation;
pub mod derived_instances;
pub mod pre_derived_provider;
