//! Loads offered to carriers.

pub mod handlers;
