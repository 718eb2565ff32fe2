//! Tribes: peoples, language groups, and their territory.

pub mod model;
pub mod repo;
pub mod store;
