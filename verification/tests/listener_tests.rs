use ms_graph_auth::errors::FlowError;
use ms_graph_auth::ms_graph_client::oauth2_authorization_server::{
    handle_request, success_response, MismatchPolicy, OAuth2AuthorizationServer, RedirectDecision,
    WaitAction, WaitPhase,
};

const SUCCESS_RESPONSE: &str =
    "HTTP/1.1 200 OK\r\nContent-Length: 53\r\n\r\nAuthorization Granted! You may now close this window.";

#[test]
fn redirect_with_matching_state_grants_code() {
    let r = handle_request("GET /oauth2/redirect?code=XYZ&state=42 HTTP/1.1", 42);
    match r {
        RedirectDecision::Granted { code } => assert_eq!(code, "XYZ"),
        _ => panic!("expected a granted code"),
    }
}

#[test]
fn success_response_is_fixed_with_announced_length() {
    let response = success_response();
    assert_eq!(response, SUCCESS_RESPONSE);
    let body = "Authorization Granted! You may now close this window.";
    assert_eq!(body.len(), 53);
    assert!(response.ends_with(body));
}

#[test]
fn mismatched_state_never_grants() {
    let r = handle_request("GET /oauth2/redirect?code=XYZ&state=43 HTTP/1.1", 42);
    match r {
        RedirectDecision::Ignored { state_mismatch } => assert!(state_mismatch),
        _ => panic!("expected the redirect to be ignored"),
    }
}

#[test]
fn missing_code_is_ignored_without_response() {
    let r = handle_request("GET /oauth2/redirect?state=42 HTTP/1.1", 42);
    match r {
        RedirectDecision::Ignored { state_mismatch } => assert!(!state_mismatch),
        _ => panic!("expected the redirect to be ignored"),
    }
    let mut server = OAuth2AuthorizationServer::start(42, MismatchPolicy::Tolerate);
    let action = server.on_request("GET /oauth2/redirect?state=42 HTTP/1.1");
    assert!(matches!(action, WaitAction::NoResponse));
    assert_eq!(server.phase, WaitPhase::Waiting);
}

#[test]
fn empty_code_is_not_granted() {
    let r = handle_request("GET /oauth2/redirect?code=&state=42 HTTP/1.1", 42);
    assert!(matches!(r, RedirectDecision::Ignored { state_mismatch: false }));
}

#[test]
fn missing_state_is_not_granted() {
    let r = handle_request("GET /oauth2/redirect?code=XYZ HTTP/1.1", 42);
    assert!(matches!(r, RedirectDecision::Ignored { state_mismatch: false }));
}

#[test]
fn non_numeric_state_counts_as_mismatch() {
    let r = handle_request("GET /oauth2/redirect?code=XYZ&state=abc HTTP/1.1", 42);
    assert!(matches!(r, RedirectDecision::Ignored { state_mismatch: true }));
}

#[test]
fn parameter_order_does_not_matter() {
    let r = handle_request("GET /oauth2/redirect?state=42&code=XYZ HTTP/1.1", 42);
    match r {
        RedirectDecision::Granted { code } => assert_eq!(code, "XYZ"),
        _ => panic!("expected a granted code"),
    }
}

#[test]
fn other_paths_are_ignored() {
    let r = handle_request("GET /favicon.ico HTTP/1.1", 42);
    assert!(matches!(r, RedirectDecision::Ignored { state_mismatch: false }));
}

#[test]
fn redirect_line_without_trailing_word_is_malformed() {
    let r = handle_request("GET /oauth2/redirect?code=XYZ&state=42", 42);
    assert!(matches!(r, RedirectDecision::Malformed));
    let mut server = OAuth2AuthorizationServer::start(42, MismatchPolicy::Tolerate);
    let action = server.on_request("GET /oauth2/redirect?code=XYZ&state=42");
    match action {
        WaitAction::Fail { error } => assert_eq!(error, FlowError::Protocol),
        _ => panic!("expected the wait to fail"),
    }
    assert_eq!(server.phase, WaitPhase::Failed);
}

#[test]
fn only_the_first_line_is_parsed() {
    let request = "GET /oauth2/redirect?code=XYZ&state=42 HTTP/1.1\r\nHost: localhost:8383\r\nAccept: */*\r\n\r\n";
    let r = handle_request(request, 42);
    match r {
        RedirectDecision::Granted { code } => assert_eq!(code, "XYZ"),
        _ => panic!("expected a granted code"),
    }
}

#[test]
fn sequential_redirects_ignore_the_mismatched_one() {
    let mut server = OAuth2AuthorizationServer::start(42, MismatchPolicy::Tolerate);
    let first = server.on_request("GET /oauth2/redirect?code=ABC&state=41 HTTP/1.1");
    assert!(matches!(first, WaitAction::NoResponse));
    assert_eq!(server.phase, WaitPhase::Waiting);
    let second = server.on_request("GET /oauth2/redirect?code=XYZ&state=42 HTTP/1.1");
    match second {
        WaitAction::Respond { response, code } => {
            assert_eq!(code, "XYZ");
            assert_eq!(response, SUCCESS_RESPONSE);
        },
        _ => panic!("expected the second redirect to be answered"),
    }
    assert_eq!(server.phase, WaitPhase::Done);
}

#[test]
fn reject_policy_surfaces_a_state_mismatch() {
    let mut server = OAuth2AuthorizationServer::start(42, MismatchPolicy::Reject);
    let action = server.on_request("GET /oauth2/redirect?code=ABC&state=41 HTTP/1.1");
    match action {
        WaitAction::Fail { error } => assert_eq!(error, FlowError::StateMismatch),
        _ => panic!("expected the wait to fail"),
    }
    assert_eq!(server.phase, WaitPhase::Failed);
}

#[test]
fn timeout_fails_the_wait() {
    let mut server = OAuth2AuthorizationServer::start(42, MismatchPolicy::Tolerate);
    let error = server.on_timeout();
    assert_eq!(error, FlowError::Timeout);
    assert_eq!(server.phase, WaitPhase::Failed);
}

#[test]
fn later_code_value_does_not_replace_the_one_granted() {
    let r = handle_request("GET /oauth2/redirect?code=A&state=42&code=B HTTP/1.1", 42);
    match r {
        RedirectDecision::Granted { code } => assert_eq!(code, "A"),
        _ => panic!("expected a granted code"),
    }
}
