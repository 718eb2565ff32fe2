//! Artifacts: works, each attributed to one artist.

pub mod model;
pub mod repo;
pub mod store;
