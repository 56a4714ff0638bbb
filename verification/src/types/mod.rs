pub mod appendable;
pub mod derivation;
pub mod entities;
pub mod error;
pub mod factor_instances;
pub mod keys;
pub mod network;
pub mod ordered_map;
pub mod rendering;
