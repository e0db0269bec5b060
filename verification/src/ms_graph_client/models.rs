//! Domain values of the flow beyond the wire shapes.

use vstd::prelude::*;

verus! {

/// Represents a Microsoft Entra user account.
#[derive(Debug)]
pub struct User {
    /// Given name (first name) of the user.
    pub given_name: String,
}

/// The phases of one authorization flow, in order; any failure in a middle
/// phase is fatal for the whole flow.
#[derive(Clone, Copy, Debug, PartialEq, Eq, Structural)]
pub enum FlowState {
    /// Nothing has happened yet.
    Idle,
    /// The listener waits for the browser redirect.
    AwaitingRedirect,
    /// A validated authorization code is in hand.
    CodeReceived,
    /// The code has been exchanged for an access token.
    TokenAcquired,
    /// The client is issuing bearer-authenticated requests.
    Authenticated,
}

impl FlowState {
    /// The phase that follows on success, or `None` in the final phase.
    pub fn next(self) -> (r: Option<FlowState>)
        ensures
            self is Idle ==> r == Some(FlowState::AwaitingRedirect),
            self is AwaitingRedirect ==> r == Some(FlowState::CodeReceived),
            self is CodeReceived ==> r == Some(FlowState::TokenAcquired),
            self is TokenAcquired ==> r == Some(FlowState::Authenticated),
            self is Authenticated ==> r is None,
    {
        match self {
            FlowState::Idle => Some(FlowState::AwaitingRedirect),
            FlowState::AwaitingRedirect => Some(FlowState::CodeReceived),
            FlowState::CodeReceived => Some(FlowState::TokenAcquired),
            FlowState::TokenAcquired => Some(FlowState::Authenticated),
            FlowState::Authenticated => None,
        }
    }
}

} // verus!
