//! Error taxonomy of the authorization flow.
//!
//! Every failure surfaces immediately to the caller; the flow has no retry
//! and no partial-success state.

use vstd::prelude::*;

verus! {

/// A failure of the authorization flow, the token exchange or the API client.
#[derive(Clone, Copy, Debug, PartialEq, Eq, Structural)]
pub enum FlowError {
    /// The authentication configuration could not be read.
    ConfigRead,
    /// The loopback port could not be bound.
    Bind,
    /// The redirect request line was malformed.
    Protocol,
    /// A redirect presented a CSRF state that did not match the expected nonce.
    StateMismatch,
    /// No valid redirect arrived before the configured deadline.
    Timeout,
    /// The network transport failed.
    HttpTransport,
    /// The token response was not decodable or was missing a required field.
    Decode,
    /// The request path could not be resolved against the API base URL.
    InvalidPath,
}

impl FlowError {
    /// A short diagnostic text for the failure.
    pub fn message(&self) -> (r: &'static str)
        ensures
            *self is ConfigRead ==> r@ == "failed to read the authentication configuration"@,
            *self is Bind ==> r@ == "failed to bind the loopback redirect port"@,
            *self is Protocol ==> r@ == "malformed redirect request line"@,
            *self is StateMismatch ==> r@ == "redirect state did not match the expected nonce"@,
            *self is Timeout ==> r@ == "no valid redirect arrived before the deadline"@,
            *self is HttpTransport ==> r@ == "network transport failure"@,
            *self is Decode ==> r@ == "token response was missing a required field"@,
            *self is InvalidPath ==> r@ == "request path cannot be resolved against the base URL"@,
    {
        match self {
            FlowError::ConfigRead => "failed to read the authentication configuration",
            FlowError::Bind => "failed to bind the loopback redirect port",
            FlowError::Protocol => "malformed redirect request line",
            FlowError::StateMismatch => "redirect state did not match the expected nonce",
            FlowError::Timeout => "no valid redirect arrived before the deadline",
            FlowError::HttpTransport => "network transport failure",
            FlowError::Decode => "token response was missing a required field",
            FlowError::InvalidPath => "request path cannot be resolved against the base URL",
        }
    }
}

} // verus!
