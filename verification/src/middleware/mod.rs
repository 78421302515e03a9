//! What runs before the request handlers: authentication and tenant lookup.

pub mod auth;
pub mod tenant;
