//! Authentication primitives: roles and token claims, the token payload
//! codec, password hashing, and the checks that gate protected routes.

pub mod extractor;
pub mod json;
pub mod jwt;
pub mod password;
pub mod payload;
