//! OAuth2 authorization-code flow for Microsoft Graph.
//!
//! The crate covers the logic of the flow: a loopback redirect listener that
//! captures an authorization code guarded by a CSRF nonce by parsing the
//! request line of the incoming HTTP request, the token exchange that turns
//! the code into a bearer access token, and a client that resolves paths
//! against the Graph API base URL and carries the bearer header. The network
//! transport around these decisions is left to the embedding program.

pub mod errors;
pub mod ms_graph_client;
pub mod strutil;
