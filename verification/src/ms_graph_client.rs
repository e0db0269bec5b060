//! Client for Microsoft Graph APIs: the authorize URL of the OAuth2
//! authorization-code flow, the token exchange request and response, path
//! resolution against the fixed API base URL, and the bearer authorization
//! header.
//!
//! The network transport itself (binding the loopback socket, the form POST
//! to the token endpoint, the authenticated GET) is the embedding program's:
//! the functions here compute every request part and decode every response,
//! so that what travels is exactly what is stated.

pub mod access_token_response;
pub mod authentication;
pub mod models;
pub mod oauth2_authorization_server;

use vstd::prelude::*;

use crate::errors::FlowError;
use crate::strutil::{spec_strip_one_leading_slash, strip_one_leading_slash, u32_dec, u32_to_string};
use self::access_token_response::AccessTokenResponse;
use self::authentication::Authentication;
use self::oauth2_authorization_server::{MismatchPolicy, OAuth2AuthorizationServer};

verus! {

/// Microsoft Graph APIs base URL.
pub open spec fn graph_base_url() -> Seq<char> {
    "https://graph.microsoft.com/v1.0/"@
}

/// Standard relative-URL-join resolution of `rel` against `base`, or `None`
/// where the base does not parse or the reference cannot be resolved. The
/// result is a function of the two strings alone.
pub uninterp spec fn url_join(base: Seq<char>, rel: Seq<char>) -> Option<Seq<char>>;

/// Relies on url::Url::parse and url::Url::join for relative-URL-join
/// resolution, and on the url crate's rendering of the joined URL back to a
/// string; the result depends on the two strings alone.
#[verifier::external_body]
fn join_url(base: &str, rel: &str) -> (r: Option<String>)
    ensures
        match r {
            Some(s) => url_join(base@, rel@) == Some(s@),
            None => url_join(base@, rel@) is None,
        },
{
    let parsed = match url::Url::parse(base) {
        Ok(u) => u,
        Err(_) => return None,
    };
    match parsed.join(rel) {
        Ok(u) => Some(u.to_string()),
        Err(_) => None,
    }
}

/// The string value at `key` in the top-level JSON object of `text`, or
/// `None` where `text` is not a JSON object or the field is missing or not
/// a string. The result is a function of the two strings alone.
pub uninterp spec fn json_string_field(text: Seq<char>, key: Seq<char>) -> Option<Seq<char>>;

/// The integer value at `key` in the top-level JSON object of `text`, or
/// `None` where `text` is not a JSON object or the field is missing or not
/// an integer that fits a signed 64-bit value. The result is a function of
/// the two strings alone.
pub uninterp spec fn json_int_field(text: Seq<char>, key: Seq<char>) -> Option<i64>;

/// Relies on serde_json::from_str and serde_json::Value::{get, as_str}:
/// deterministic JSON decoding of the string field at `key`.
#[verifier::external_body]
fn get_json_string_field(text: &str, key: &str) -> (r: Option<String>)
    ensures
        match r {
            Some(s) => json_string_field(text@, key@) == Some(s@),
            None => json_string_field(text@, key@) is None,
        },
{
    let value: serde_json::Value = match serde_json::from_str(text) {
        Ok(v) => v,
        Err(_) => return None,
    };
    match value.get(key) {
        Some(f) => f.as_str().map(|s| s.to_string()),
        None => None,
    }
}

/// Relies on serde_json::from_str and serde_json::Value::{get, as_i64}:
/// deterministic JSON decoding of the integer field at `key`.
#[verifier::external_body]
fn get_json_int_field(text: &str, key: &str) -> (r: Option<i64>)
    ensures
        match r {
            Some(v) => json_int_field(text@, key@) == Some(v),
            None => json_int_field(text@, key@) is None,
        },
{
    let value: serde_json::Value = match serde_json::from_str(text) {
        Ok(v) => v,
        Err(_) => return None,
    };
    match value.get(key) {
        Some(f) => f.as_i64(),
        None => None,
    }
}

/// Relies on rand::random: a fresh random unsigned 32-bit value, generated
/// once per authorization attempt; nothing is assumed of the outcome.
#[verifier::external_body]
fn fresh_security_state() -> u32 {
    rand::random::<u32>()
}

/// The decoded token-endpoint response: the access token string and the
/// validity in seconds, or `None` where either required field is missing.
pub open spec fn spec_decoded_token(text: Seq<char>) -> Option<(Seq<char>, i64)> {
    match (json_string_field(text, "access_token"@), json_int_field(text, "expires_in"@)) {
        (Some(t), Some(e)) => Some((t, e)),
        _ => None,
    }
}

/// Decode the JSON body of the token-endpoint response, requiring the
/// `access_token` string and the `expires_in` integer.
pub fn decode_token_response(text: &str) -> (r: Result<AccessTokenResponse, FlowError>)
    ensures
        r is Ok <==> spec_decoded_token(text@) is Some,
        r is Ok ==> r->Ok_0.access_token@ == spec_decoded_token(text@)->Some_0.0,
        r is Ok ==> r->Ok_0.expires_in == spec_decoded_token(text@)->Some_0.1,
        r is Err ==> r->Err_0 is Decode,
{
    let access_token = match get_json_string_field(text, "access_token") {
        Some(t) => t,
        None => return Err(FlowError::Decode),
    };
    let expires_in = match get_json_int_field(text, "expires_in") {
        Some(e) => e,
        None => return Err(FlowError::Decode),
    };
    Ok(AccessTokenResponse { access_token, expires_in })
}

/// Signed 64-bit addition clipped to the representable range.
pub open spec fn sat_add_i64(a: i64, b: i64) -> i64 {
    if a + b > i64::MAX {
        i64::MAX
    } else if a + b < i64::MIN {
        i64::MIN
    } else {
        (a + b) as i64
    }
}

/// Add two signed 64-bit values, clipping at the range ends.
fn add_sat_i64(a: i64, b: i64) -> (r: i64)
    ensures
        r == sat_add_i64(a, b),
{
    if b >= 0 {
        if a > i64::MAX - b {
            i64::MAX
        } else {
            a + b
        }
    } else {
        if a < i64::MIN - b {
            i64::MIN
        } else {
            a + b
        }
    }
}

/// A bearer access token and its absolute expiry, in seconds of the caller's
/// clock. Never constructed except from a token response whose
/// `access_token` field is present and non-empty.
#[derive(Debug)]
pub struct AccessToken {
    token: String,
    expires_at: i64,
}

impl AccessToken {
    /// The token string.
    pub closed spec fn spec_token(&self) -> Seq<char> {
        self.token@
    }

    /// The absolute expiry, in seconds.
    pub closed spec fn spec_expires_at(&self) -> i64 {
        self.expires_at
    }

    /// The token is non-empty.
    pub open spec fn wf(&self) -> bool {
        self.spec_token().len() > 0
    }

    /// Build the access token from a decoded token-endpoint response and the
    /// current time in seconds; an empty token is refused. The expiry is
    /// diagnostic only: no refresh flow exists.
    pub fn from_response(response: &AccessTokenResponse, now: i64) -> (r: Result<AccessToken, FlowError>)
        ensures
            r is Ok <==> response.access_token@.len() > 0,
            r is Ok ==> r->Ok_0.wf(),
            r is Ok ==> r->Ok_0.spec_token() == response.access_token@,
            r is Ok ==> r->Ok_0.spec_expires_at() == sat_add_i64(now, response.expires_in),
            r is Err ==> r->Err_0 is Decode,
    {
        if response.access_token.as_str().unicode_len() == 0 {
            return Err(FlowError::Decode);
        }
        Ok(AccessToken {
            token: response.access_token.clone(),
            expires_at: add_sat_i64(now, response.expires_in),
        })
    }

    /// The token string.
    pub fn token(&self) -> (r: &str)
        ensures
            r@ == self.spec_token(),
    {
        self.token.as_str()
    }

    /// The absolute expiry, in seconds.
    pub fn expires_at(&self) -> (r: i64)
        ensures
            r == self.spec_expires_at(),
    {
        self.expires_at
    }
}

/// The token-endpoint URL of a tenant.
pub open spec fn spec_token_endpoint_url(tenant: Seq<char>) -> Seq<char> {
    "https://login.microsoftonline.com/"@ + tenant + "/oauth2/v2.0/token"@
}

/// The URL of the provider's token endpoint for the given tenant.
pub fn token_endpoint_url(tenant_id: &str) -> (r: String)
    ensures
        r@ == spec_token_endpoint_url(tenant_id@),
{
    let mut s = "https://login.microsoftonline.com/".to_owned();
    s.append(tenant_id);
    s.append("/oauth2/v2.0/token");
    assert(s@ =~= spec_token_endpoint_url(tenant_id@));
    s
}

/// The authorize URL that the user must open: it binds the client and the
/// fresh CSRF nonce carried as `state`.
pub open spec fn spec_authorize_url(tenant: Seq<char>, client: Seq<char>, nonce: u32) -> Seq<char> {
    "https://login.microsoftonline.com/"@ + tenant + "/oauth2/v2.0/authorize?client_id="@ + client
        + "&response_type=code&redirect_uri=http://localhost:8383/oauth2/redirect&response_mode=query&scope=offline_access%20User.Read&state="@
        + u32_dec(nonce as int)
}

/// Build the authorize URL for a tenant, client and CSRF nonce.
pub fn authorize_url(tenant_id: &str, client_id: &str, security_state: u32) -> (r: String)
    ensures
        r@ == spec_authorize_url(tenant_id@, client_id@, security_state),
{
    let mut s = "https://login.microsoftonline.com/".to_owned();
    s.append(tenant_id);
    s.append("/oauth2/v2.0/authorize?client_id=");
    s.append(client_id);
    s.append(
        "&response_type=code&redirect_uri=http://localhost:8383/oauth2/redirect&response_mode=query&scope=offline_access%20User.Read&state=",
    );
    let digits = u32_to_string(security_state);
    s.append(digits.as_str());
    assert(s@ =~= spec_authorize_url(tenant_id@, client_id@, security_state));
    s
}

/// The six form fields of the token-exchange POST; the redirect URI must be
/// byte-identical to the one in the authorize request.
pub fn token_request_params(authentication: &Authentication, authorization_code: &str) -> (r: Vec<
    (String, String),
>)
    ensures
        r@.len() == 6,
        r@[0].0@ == "client_id"@ && r@[0].1@ == authentication.client_id@,
        r@[1].0@ == "scope"@ && r@[1].1@ == "offline_access User.Read"@,
        r@[2].0@ == "code"@ && r@[2].1@ == authorization_code@,
        r@[3].0@ == "redirect_uri"@ && r@[3].1@ == "http://localhost:8383/oauth2/redirect"@,
        r@[4].0@ == "grant_type"@ && r@[4].1@ == "authorization_code"@,
        r@[5].0@ == "client_secret"@ && r@[5].1@ == authentication.client_secret@,
{
    let mut params: Vec<(String, String)> = Vec::new();
    params.push(("client_id".to_owned(), authentication.client_id.clone()));
    params.push(("scope".to_owned(), "offline_access User.Read".to_owned()));
    params.push(("code".to_owned(), authorization_code.to_owned()));
    params.push(("redirect_uri".to_owned(), "http://localhost:8383/oauth2/redirect".to_owned()));
    params.push(("grant_type".to_owned(), "authorization_code".to_owned()));
    params.push(("client_secret".to_owned(), authentication.client_secret.clone()));
    params
}

/// Client used to interact with Microsoft Graph APIs.
#[derive(Debug)]
pub struct MsGraphClient {
    /// Access token used to authenticate with Microsoft Graph APIs.
    access_token: String,
}

impl MsGraphClient {
    /// The bearer token the client carries.
    pub closed spec fn spec_token(&self) -> Seq<char> {
        self.access_token@
    }

    /// The token is non-empty.
    pub open spec fn wf(&self) -> bool {
        self.spec_token().len() > 0
    }

    /// Create a new instance of the client around an acquired access token.
    pub fn new(access_token: &AccessToken) -> (r: MsGraphClient)
        ensures
            r.spec_token() == access_token.spec_token(),
            access_token.wf() ==> r.wf(),
    {
        MsGraphClient { access_token: access_token.token().to_owned() }
    }

    /// Build a client straight from the token-endpoint response body and
    /// the current time in seconds: the decoded, non-empty `access_token`
    /// becomes the bearer token that `authorization_header` carries.
    pub fn from_token_response(text: &str, now: i64) -> (r: Result<MsGraphClient, FlowError>)
        ensures
            r is Ok <==> (spec_decoded_token(text@) is Some && spec_decoded_token(
                text@,
            )->Some_0.0.len() > 0),
            r is Ok ==> r->Ok_0.spec_token() == spec_decoded_token(text@)->Some_0.0,
            r is Ok ==> r->Ok_0.wf(),
            r is Err ==> r->Err_0 is Decode,
    {
        let response = match decode_token_response(text) {
            Ok(response) => response,
            Err(e) => return Err(e),
        };
        let token = match AccessToken::from_response(&response, now) {
            Ok(token) => token,
            Err(e) => return Err(e),
        };
        Ok(MsGraphClient::new(&token))
    }

    /// Begin one authorization attempt: generate a fresh CSRF nonce, and
    /// return the listener expecting it together with the authorize URL that
    /// carries it as `state`. Whatever nonce was drawn, the two agree.
    pub fn begin_authorization(tenant_id: &str, client_id: &str, policy: MismatchPolicy) -> (r: (
        OAuth2AuthorizationServer,
        String,
    ))
        ensures
            r.0.phase is Waiting,
            r.0.policy == policy,
            r.1@ == spec_authorize_url(tenant_id@, client_id@, r.0.security_state),
    {
        let security_state = fresh_security_state();
        let url = authorize_url(tenant_id, client_id, security_state);
        (OAuth2AuthorizationServer::start(security_state, policy), url)
    }

    /// The value of the `Authorization` header carried by every request.
    pub fn authorization_header(&self) -> (r: String)
        ensures
            r@ == "Bearer "@ + self.spec_token(),
    {
        let mut s = "Bearer ".to_owned();
        s.append(self.access_token.as_str());
        s
    }

    /// The absolute URL of a GET of `path`: exactly one leading `/` is
    /// stripped, and the remainder resolved against the Graph base URL by
    /// standard relative-URL-join resolution, never by string concatenation.
    pub fn target_url(path: &str) -> (r: Result<String, FlowError>)
        ensures
            r is Ok <==> url_join(graph_base_url(), spec_strip_one_leading_slash(path@)) is Some,
            r is Ok ==> r->Ok_0@ == url_join(
                graph_base_url(),
                spec_strip_one_leading_slash(path@),
            )->Some_0,
            r is Err ==> r->Err_0 is InvalidPath,
    {
        let rel = strip_one_leading_slash(path);
        match join_url("https://graph.microsoft.com/v1.0/", rel) {
            Some(u) => Ok(u),
            None => Err(FlowError::InvalidPath),
        }
    }

    /// The URL and `Authorization` header value of a GET request for `path`.
    /// The response body is the caller's verbatim, whatever the status.
    pub fn get_request(&self, path: &str) -> (r: Result<(String, String), FlowError>)
        ensures
            r is Ok <==> url_join(graph_base_url(), spec_strip_one_leading_slash(path@)) is Some,
            r is Ok ==> r->Ok_0.0@ == url_join(
                graph_base_url(),
                spec_strip_one_leading_slash(path@),
            )->Some_0,
            r is Ok ==> r->Ok_0.1@ == "Bearer "@ + self.spec_token(),
            r is Err ==> r->Err_0 is InvalidPath,
    {
        let url = match Self::target_url(path) {
            Ok(u) => u,
            Err(e) => return Err(e),
        };
        Ok((url, self.authorization_header()))
    }
}

} // verus!
