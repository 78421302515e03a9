//! Building blocks of paginated listings.

pub mod build_url;
pub mod paginations;
