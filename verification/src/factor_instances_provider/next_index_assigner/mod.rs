pub mod offsets;
pub mod profile_analyzing;
pub mod assigner;
