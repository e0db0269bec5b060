use ms_graph_auth::errors::FlowError;
use ms_graph_auth::ms_graph_client::access_token_response::AccessTokenResponse;
use ms_graph_auth::ms_graph_client::authentication::Authentication;
use ms_graph_auth::ms_graph_client::models::FlowState;
use ms_graph_auth::ms_graph_client::oauth2_authorization_server::MismatchPolicy;
use ms_graph_auth::ms_graph_client::{
    authorize_url, decode_token_response, token_endpoint_url, token_request_params, AccessToken,
    MsGraphClient,
};
use ms_graph_auth::strutil::{parse_u32_exec, u32_to_string};

fn sample_authentication() -> Authentication {
    Authentication {
        client_id: "client-123".to_string(),
        client_secret: "SECRET-REDACTED".to_string(),
        tenant_id: "tenant-456".to_string(),
    }
}

#[test]
fn token_response_round_trip_carries_bearer_header() {
    let response = decode_token_response("{\"access_token\":\"abc\",\"expires_in\":3600}")
        .expect("the response must decode");
    assert_eq!(response.access_token, "abc");
    assert_eq!(response.expires_in, 3600);
    let token = AccessToken::from_response(&response, 1_000).expect("the token is non-empty");
    assert_eq!(token.token(), "abc");
    assert_eq!(token.expires_at(), 4_600);
    let client = MsGraphClient::new(&token);
    assert_eq!(client.authorization_header(), "Bearer abc");
}

#[test]
fn a_client_built_from_the_response_body_carries_the_token() {
    let client =
        MsGraphClient::from_token_response("{\"access_token\":\"abc\",\"expires_in\":3600}", 0)
            .expect("the response must decode");
    assert_eq!(client.authorization_header(), "Bearer abc");
    let refused = MsGraphClient::from_token_response("{\"expires_in\":3600}", 0);
    assert_eq!(refused.unwrap_err(), FlowError::Decode);
}

#[test]
fn decode_rejects_a_missing_access_token() {
    let r = decode_token_response("{\"expires_in\":3600}");
    assert_eq!(r.unwrap_err(), FlowError::Decode);
}

#[test]
fn decode_rejects_a_missing_expiry() {
    let r = decode_token_response("{\"access_token\":\"abc\"}");
    assert_eq!(r.unwrap_err(), FlowError::Decode);
}

#[test]
fn decode_rejects_text_that_is_not_json() {
    let r = decode_token_response("not json at all");
    assert_eq!(r.unwrap_err(), FlowError::Decode);
}

#[test]
fn an_empty_access_token_is_refused() {
    let response = decode_token_response("{\"access_token\":\"\",\"expires_in\":10}")
        .expect("the response decodes");
    let r = AccessToken::from_response(&response, 0);
    assert_eq!(r.unwrap_err(), FlowError::Decode);
}

#[test]
fn expiry_is_clipped_at_the_range_end() {
    let response = AccessTokenResponse { access_token: "abc".to_string(), expires_in: i64::MAX };
    let token = AccessToken::from_response(&response, 10).expect("the token is non-empty");
    assert_eq!(token.expires_at(), i64::MAX);
}

#[test]
fn target_url_resolves_with_and_without_a_leading_slash() {
    assert_eq!(
        MsGraphClient::target_url("/me").unwrap(),
        "https://graph.microsoft.com/v1.0/me"
    );
    assert_eq!(
        MsGraphClient::target_url("me").unwrap(),
        "https://graph.microsoft.com/v1.0/me"
    );
}

#[test]
fn target_url_uses_url_join_resolution_not_concatenation() {
    assert_eq!(
        MsGraphClient::target_url("../admin").unwrap(),
        "https://graph.microsoft.com/admin"
    );
    assert_eq!(
        MsGraphClient::target_url("//example.com/x").unwrap(),
        "https://graph.microsoft.com/example.com/x"
    );
    assert_eq!(
        MsGraphClient::target_url("/me").unwrap(),
        MsGraphClient::target_url("me").unwrap()
    );
}

#[test]
fn get_request_carries_the_bearer_header() {
    let response = AccessTokenResponse { access_token: "tok".to_string(), expires_in: 60 };
    let token = AccessToken::from_response(&response, 0).unwrap();
    let client = MsGraphClient::new(&token);
    let (url, header) = client.get_request("/me/messages").unwrap();
    assert_eq!(url, "https://graph.microsoft.com/v1.0/me/messages");
    assert_eq!(header, "Bearer tok");
}

#[test]
fn token_endpoint_url_embeds_the_tenant() {
    assert_eq!(
        token_endpoint_url("tenant-456"),
        "https://login.microsoftonline.com/tenant-456/oauth2/v2.0/token"
    );
}

#[test]
fn authorize_url_is_exactly_the_provider_form() {
    assert_eq!(
        authorize_url("tenant-456", "client-123", 42),
        "https://login.microsoftonline.com/tenant-456/oauth2/v2.0/authorize?\
client_id=client-123&response_type=code\
&redirect_uri=http://localhost:8383/oauth2/redirect\
&response_mode=query&scope=offline_access%20User.Read&state=42"
    );
}

#[test]
fn begin_authorization_binds_the_nonce_to_the_url() {
    let (server, url) =
        MsGraphClient::begin_authorization("tenant-456", "client-123", MismatchPolicy::Tolerate);
    assert_eq!(url, authorize_url("tenant-456", "client-123", server.security_state));
}

#[test]
fn token_request_params_hold_the_six_fields() {
    let authentication = sample_authentication();
    let params = token_request_params(&authentication, "CODE");
    let expected = vec![
        ("client_id", "client-123"),
        ("scope", "offline_access User.Read"),
        ("code", "CODE"),
        ("redirect_uri", "http://localhost:8383/oauth2/redirect"),
        ("grant_type", "authorization_code"),
        ("client_secret", "SECRET-REDACTED"),
    ];
    assert_eq!(params.len(), expected.len());
    for (got, want) in params.iter().zip(expected.iter()) {
        assert_eq!(got.0, want.0);
        assert_eq!(got.1, want.1);
    }
}

#[test]
fn parse_u32_accepts_exactly_decimal_u32() {
    assert_eq!(parse_u32_exec("0"), Some(0));
    assert_eq!(parse_u32_exec("42"), Some(42));
    assert_eq!(parse_u32_exec("4294967295"), Some(u32::MAX));
    assert_eq!(parse_u32_exec("4294967296"), None);
    assert_eq!(parse_u32_exec(""), None);
    assert_eq!(parse_u32_exec("12a"), None);
    assert_eq!(parse_u32_exec("-1"), None);
}

#[test]
fn u32_rendering_round_trips() {
    assert_eq!(u32_to_string(0), "0");
    assert_eq!(u32_to_string(42), "42");
    assert_eq!(u32_to_string(u32::MAX), "4294967295");
    assert_eq!(parse_u32_exec(&u32_to_string(987654321)), Some(987654321));
}

#[test]
fn flow_states_advance_in_order_and_end() {
    let mut state = FlowState::Idle;
    let mut seen = vec![state];
    while let Some(next) = state.next() {
        state = next;
        seen.push(state);
    }
    assert_eq!(
        seen,
        vec![
            FlowState::Idle,
            FlowState::AwaitingRedirect,
            FlowState::CodeReceived,
            FlowState::TokenAcquired,
            FlowState::Authenticated,
        ]
    );
}

#[test]
fn error_messages_name_the_failure() {
    assert_eq!(FlowError::Timeout.message(), "no valid redirect arrived before the deadline");
    assert_eq!(
        FlowError::StateMismatch.message(),
        "redirect state did not match the expected nonce"
    );
}
