//! Authentication and authorization core of a small multi-tenant parking
//! membership service: credential hashing and verification, signed-token
//! issuance and validation with an optional-vs-mandatory authentication
//! gate, and the membership and ownership rules that decide who may read a
//! resource's secret, who may register, and how join requests are resolved.

pub mod auth;
pub mod errors;
pub mod laws;
pub mod models;
pub mod schema;
pub mod security;
pub mod store;
pub mod token;
