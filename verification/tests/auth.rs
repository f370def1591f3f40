use warp_minio::auth::{
    auth_header_basic, auth_header_bearer, check, conclude, error_reply, session_key,
    trim_bearer_prefix, AuthDecision, AuthType, ErrorReply, SessionReply,
};
use warp_minio::headers::Headers;

fn list(fields: &[(&str, &str)]) -> Headers {
    let mut headers = Headers::new();
    for (name, value) in fields {
        headers.append(name.to_string(), value.to_string());
    }
    headers
}

fn lookup_key(decision: &AuthDecision) -> Option<String> {
    match decision {
        AuthDecision::Lookup(key) => Some(key.clone()),
        _ => None,
    }
}

#[test]
fn trim_bearer_prefix_gives_the_token() {
    assert_eq!(trim_bearer_prefix("Bearer abc123"), Some("abc123"));
    assert_eq!(trim_bearer_prefix("Bearer "), Some(""));
    assert_eq!(trim_bearer_prefix("Bearer a b"), Some("a b"));
}

#[test]
fn trim_bearer_prefix_refuses_other_values() {
    assert_eq!(trim_bearer_prefix(""), None);
    assert_eq!(trim_bearer_prefix("Bearer"), None);
    assert_eq!(trim_bearer_prefix("bearer abc"), None);
    assert_eq!(trim_bearer_prefix("Basic abc"), None);
    assert_eq!(trim_bearer_prefix(" Bearer abc"), None);
    assert_eq!(trim_bearer_prefix("Beareré"), None);
}

#[test]
fn session_key_is_prefix_then_token() {
    assert_eq!(session_key("auth:token:", "abc123"), "auth:token:abc123");
}

#[test]
fn disabled_policy_lets_everything_pass() {
    let headers = Headers::new();
    assert!(matches!(check(&None, &headers), AuthDecision::Authorized));
    assert!(matches!(check(&Some(AuthType::Disabled), &headers), AuthDecision::Authorized));
}

#[test]
fn bearer_policy_names_the_session_key() {
    let policy = Some(AuthType::Bearer("auth:token:".to_string()));
    let headers = list(&[("Authorization", "Bearer abc123")]);
    let decision = check(&policy, &headers);
    assert_eq!(lookup_key(&decision), Some("auth:token:abc123".to_string()));
    assert!(conclude(&decision, SessionReply::Present));
    assert!(!conclude(&decision, SessionReply::Absent));
    assert!(!conclude(&decision, SessionReply::Failed));
}

#[test]
fn bearer_policy_turns_away_without_token() {
    let policy = Some(AuthType::Bearer("p:".to_string()));
    assert!(matches!(check(&policy, &Headers::new()), AuthDecision::Unauthorized));
    let malformed = list(&[("authorization", "Token abc")]);
    assert!(matches!(check(&policy, &malformed), AuthDecision::Unauthorized));
    let other_header = list(&[("x-authorization", "Bearer abc")]);
    assert!(matches!(check(&policy, &other_header), AuthDecision::Unauthorized));
    let decision = auth_header_bearer(&malformed, "p:");
    assert!(!conclude(&decision, SessionReply::Present));
}

#[test]
fn bearer_policy_reads_the_first_authorization_header() {
    let headers = list(&[("authorization", "Basic x"), ("authorization", "Bearer abc")]);
    assert!(matches!(auth_header_bearer(&headers, "p:"), AuthDecision::Unauthorized));
}

#[test]
fn basic_policy_wants_the_exact_value() {
    let policy = Some(AuthType::Basic("x-api-key".to_string(), "s3cret".to_string()));
    assert!(matches!(
        check(&policy, &list(&[("X-Api-Key", "s3cret")])),
        AuthDecision::Authorized
    ));
    assert!(matches!(
        check(&policy, &list(&[("x-api-key", "S3cret")])),
        AuthDecision::Unauthorized
    ));
    assert!(matches!(
        check(&policy, &list(&[("x-api-key", "s3cret ")])),
        AuthDecision::Unauthorized
    ));
    assert!(matches!(check(&policy, &Headers::new()), AuthDecision::Unauthorized));
    assert!(auth_header_basic(&list(&[("k", "v")]), "k", "v"));
    assert!(!auth_header_basic(&list(&[("k", "v")]), "k", ""));
}

#[test]
fn conclude_without_lookup_ignores_the_reply() {
    assert!(conclude(&AuthDecision::Authorized, SessionReply::Failed));
    assert!(conclude(&AuthDecision::Authorized, SessionReply::Absent));
    assert!(!conclude(&AuthDecision::Unauthorized, SessionReply::Present));
}

#[test]
fn error_replies_have_fixed_status_and_body() {
    let unauthorized = error_reply(ErrorReply::Unauthorized);
    assert_eq!(unauthorized.status, 401);
    assert_eq!(unauthorized.body, "{\"error\": \"Unauthorized\"}");
    let invalid = error_reply(ErrorReply::MinioInvalid);
    assert_eq!(invalid.status, 500);
    assert_eq!(invalid.body, "{\"error\": \"Config error\"}");
    let gateway = error_reply(ErrorReply::BadGateway);
    assert_eq!(gateway.status, 502);
    assert_eq!(gateway.body, "{\"error\": \"Bad gateway\"}");
}

#[test]
fn policy_names() {
    assert_eq!(AuthType::Bearer("p".to_string()).to_string(), "Bearer");
    assert_eq!(
        AuthType::Basic("user".to_string(), "pass".to_string()).to_string(),
        "Basic: user, pass"
    );
    assert_eq!(AuthType::Disabled.to_string(), "None");
}
