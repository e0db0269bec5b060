//! The credentials that the flow consumes.

use vstd::prelude::*;

verus! {

/// Represents a collection of details used to authenticate with Microsoft
/// Graph APIs.
#[derive(Debug)]
pub struct Authentication {
    /// Application (client) identifier.
    pub client_id: String,

    /// Application (client) secret.
    pub client_secret: String,

    /// Tenant identifier.
    pub tenant_id: String,
}

} // verus!
