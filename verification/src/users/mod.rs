//! Users & access: accounts, credentials and role-based authorisation.

pub mod model;
pub mod repo;
pub mod routes;
pub mod store;
