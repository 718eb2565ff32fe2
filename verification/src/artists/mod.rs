//! Artists: biographies, lifespan, region, tribe affiliation.

pub mod model;
pub mod repo;
pub mod store;
