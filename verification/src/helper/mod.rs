//! Helpers shared by the request handlers.

pub mod build_url;
pub mod tenant_context;
