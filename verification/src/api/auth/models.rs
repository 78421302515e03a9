//! The user a request is made on behalf of.

use vstd::prelude::*;

verus! {

/// The user that a bearer token identifies.
#[derive(Debug, Clone, Copy, PartialEq, Eq, Structural)]
pub struct AuthUser {
    /// The user's id.
    pub id: i32,
}

} // verus!
