//! Verified core of a multi-tenant load board web service: request header
//! reading, bearer-token framing, pagination, link and SQL text building.

pub mod api;
pub mod base;
pub mod headers;
pub mod helper;
pub mod middleware;
pub mod text;
pub mod utils;
