//! The request-facing rules of the store, grouped by route family.

pub mod admin;
pub mod articles;
pub mod auth;
pub mod discovery;
