//! The service's resources: authenticated users, tenant companies and loads.

pub mod auth;
pub mod company;
pub mod load;
