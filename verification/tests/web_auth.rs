use titanclaw::auth::{bearer_token_matches, is_authorized, query_token_matches, tokens_equal, AuthState};

#[test]
fn test_auth_state_clone() {
    let state = AuthState { token: "test-token".to_string() };
    let cloned = state.clone();
    assert_eq!(cloned.token, "test-token");
}

#[test]
fn test_query_token_matches_plain() {
    assert!(query_token_matches("token=test-token", "test-token"));
}

#[test]
fn test_query_token_matches_url_encoded() {
    let expected = "abc+/=xyz";
    assert!(query_token_matches("token=abc%2B%2F%3Dxyz", expected));
}

#[test]
fn test_query_token_matches_rejects_wrong_value() {
    assert!(!query_token_matches("token=wrong", "test-token"));
}

#[test]
fn test_query_token_matches_ignores_other_params() {
    assert!(query_token_matches("foo=1&token=test-token&bar=2", "test-token"));
}

#[test]
fn bearer_header_and_authorization() {
    assert!(bearer_token_matches("Bearer s3cret", "s3cret"));
    assert!(!bearer_token_matches("bearer s3cret", "s3cret"));
    assert!(!bearer_token_matches("Bearer s3cret2", "s3cret"));
    assert!(tokens_equal("a", "a") && !tokens_equal("a", "ab"));
    let auth = AuthState { token: "t".to_string() };
    assert!(is_authorized(&auth, Some("Bearer t"), None));
    assert!(is_authorized(&auth, Some("Bearer x"), Some("token=t")));
    assert!(!is_authorized(&auth, None, Some("token=x")));
    assert!(!is_authorized(&auth, None, None));
}

#[test]
fn refused_requests_get_the_unauthorized_message() {
    assert_eq!(titanclaw::auth::UNAUTHORIZED_MESSAGE, "Invalid or missing auth token");
    let auth = AuthState { token: "T".to_string() };
    assert!(!is_authorized(&auth, Some("Bearer X"), Some("token=wrong")));
    assert!(is_authorized(&auth, None, Some("foo=1&token=T&bar=2")));
}
