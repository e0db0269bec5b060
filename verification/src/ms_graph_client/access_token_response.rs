//! The shape of the provider's token-endpoint response.

use vstd::prelude::*;

verus! {

/// Represents a HTTP response used to return an application's access token.
#[derive(Debug)]
pub struct AccessTokenResponse {
    /// Access token used to authenticate with Microsoft Graph APIs.
    pub access_token: String,

    /// Number of seconds the access token is valid for.
    pub expires_in: i64,
}

} // verus!
