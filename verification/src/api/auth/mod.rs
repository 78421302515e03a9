//! Authenticated users.

pub mod models;
