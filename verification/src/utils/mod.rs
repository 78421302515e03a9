//! Service configuration.

pub mod config;
