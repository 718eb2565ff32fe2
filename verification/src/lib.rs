//! Verified core of the gallery catalogue service: input validation, the
//! in-memory stores and their laws, authorisation decisions, the bearer
//! token payload, and the error-to-status funnel.

pub mod artifacts;
pub mod artists;
pub mod auth;
pub mod clock;
pub mod error;
pub mod health;
pub mod seed;
pub mod table;
pub mod text;
pub mod tribes;
pub mod users;
