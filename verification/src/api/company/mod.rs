//! Tenant companies.

pub mod models;
