use telemetry_node::auth::{authorize, configured_credential, RequestHeaders};
use telemetry_node::error::NodeError;

fn headers(authorization: Option<&str>, node_token: Option<&str>) -> RequestHeaders {
    RequestHeaders {
        authorization: authorization.map(|s| s.to_string()),
        node_token: node_token.map(|s| s.to_string()),
    }
}

#[test]
fn open_mode_admits_request_without_headers() {
    assert_eq!(authorize(&headers(None, None), None), Ok(()));
}

#[test]
fn open_mode_admits_any_token() {
    assert_eq!(authorize(&headers(Some("Bearer nonsense"), Some("x")), None), Ok(()));
}

#[test]
fn correct_bearer_token_is_admitted() {
    assert_eq!(authorize(&headers(Some("Bearer s3cret"), None), Some("s3cret")), Ok(()));
}

#[test]
fn bearer_token_is_trimmed() {
    assert_eq!(authorize(&headers(Some("Bearer   s3cret \t"), None), Some("s3cret")), Ok(()));
}

#[test]
fn node_token_header_is_admitted() {
    assert_eq!(authorize(&headers(None, Some(" s3cret ")), Some("s3cret")), Ok(()));
}

#[test]
fn non_bearer_authorization_falls_back_to_node_token() {
    assert_eq!(authorize(&headers(Some("Basic abc"), Some("s3cret")), Some("s3cret")), Ok(()));
}

#[test]
fn bearer_token_takes_precedence_over_node_token() {
    assert_eq!(
        authorize(&headers(Some("Bearer wrong"), Some("s3cret")), Some("s3cret")),
        Err(NodeError::Unauthorized)
    );
}

#[test]
fn missing_token_is_rejected_with_401() {
    let r = authorize(&headers(None, None), Some("s3cret"));
    assert_eq!(r, Err(NodeError::Unauthorized));
    assert_eq!(r.unwrap_err().status(), 401);
}

#[test]
fn wrong_token_is_rejected() {
    assert_eq!(
        authorize(&headers(Some("Bearer s3cre"), None), Some("s3cret")),
        Err(NodeError::Unauthorized)
    );
    assert_eq!(authorize(&headers(None, Some("S3CRET")), Some("s3cret")), Err(NodeError::Unauthorized));
}

#[test]
fn lowercase_bearer_prefix_is_not_a_bearer_token() {
    assert_eq!(
        authorize(&headers(Some("bearer s3cret"), None), Some("s3cret")),
        Err(NodeError::Unauthorized)
    );
}

#[test]
fn blank_credential_disables_authorization() {
    assert_eq!(configured_credential(Some(" \t\n".to_string())), None);
    assert_eq!(configured_credential(Some("\u{3000}".to_string())), None);
    assert_eq!(configured_credential(Some(String::new())), None);
    assert_eq!(configured_credential(None), None);
}

#[test]
fn credential_is_kept_as_given() {
    assert_eq!(configured_credential(Some(" tok ".to_string())), Some(" tok ".to_string()));
}

#[test]
fn unicode_white_space_is_trimmed_and_inner_text_kept() {
    assert_eq!(authorize(&headers(None, Some("\u{3000}t ok\u{a0}")), Some("t ok")), Ok(()));
    assert_eq!(authorize(&headers(Some("Bearer \u{2003}tök\u{85}"), None), Some("tök")), Ok(()));
    assert_eq!(authorize(&headers(Some("Bearer"), Some("tok")), Some("tok")), Ok(()));
    assert_eq!(authorize(&headers(Some("Bearer "), None), Some("tok")), Err(NodeError::Unauthorized));
}
