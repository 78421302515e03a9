//! A tenant of the service.

use vstd::prelude::*;

verus! {

/// A tenant company: the domain it is served under and the database schema
/// that holds its data.
#[derive(Debug, Clone)]
pub struct TenantCompany {
    /// The company's id.
    pub id: i32,
    /// The database schema of the company's data.
    pub schema_name: String,
    /// The domain under which the company's users reach the service.
    pub domain_url: String,
}

} // verus!
