use http_echo::auth::{validate_basic, validate_bearer, AuthConfig, AuthResult};
use http_echo::error::ExtractionError;

fn config() -> AuthConfig {
    AuthConfig { expected_password: "passwd".to_string() }
}

fn principal(outcome: AuthResult) -> Option<String> {
    match outcome {
        AuthResult::Authenticated { principal } => Some(principal),
        AuthResult::Rejected { .. } => None,
    }
}

fn challenge(outcome: AuthResult) -> Option<String> {
    match outcome {
        AuthResult::Authenticated { .. } => None,
        AuthResult::Rejected { challenge } => Some(challenge),
    }
}

#[test]
fn expected_password_authenticates_the_identifier() {
    let outcome = validate_basic(Some(("user".to_string(), Some("passwd".to_string()))), &config());
    assert_eq!(principal(outcome), Some("user".to_string()));
}

#[test]
fn any_identifier_is_accepted_with_the_password() {
    let outcome = validate_basic(Some(("".to_string(), Some("passwd".to_string()))), &config());
    assert_eq!(principal(outcome), Some("".to_string()));
}

#[test]
fn wrong_password_is_challenged() {
    let outcome = validate_basic(Some(("user".to_string(), Some("Passwd".to_string()))), &config());
    assert_eq!(challenge(outcome), Some("Basic realm=\"Fake Realm\"".to_string()));
}

#[test]
fn missing_password_is_challenged() {
    let outcome = validate_basic(Some(("user".to_string(), None)), &config());
    assert_eq!(challenge(outcome), Some("Basic realm=\"Fake Realm\"".to_string()));
}

#[test]
fn missing_credentials_are_challenged() {
    let outcome = validate_basic(None, &config());
    assert_eq!(challenge(outcome), Some("Basic realm=\"Fake Realm\"".to_string()));
}

#[test]
fn expected_password_comes_from_the_configuration() {
    let other = AuthConfig { expected_password: "s3cret".to_string() };
    let outcome = validate_basic(Some(("user".to_string(), Some("passwd".to_string()))), &other);
    assert_eq!(principal(outcome), None);
    let outcome = validate_basic(Some(("user".to_string(), Some("s3cret".to_string()))), &other);
    assert_eq!(principal(outcome), Some("user".to_string()));
}

#[test]
fn every_token_is_accepted() {
    assert_eq!(principal(validate_bearer("abc123".to_string())), Some("abc123".to_string()));
    assert_eq!(principal(validate_bearer("".to_string())), Some("".to_string()));
}

#[test]
fn extraction_errors_say_what_failed() {
    assert_eq!(ExtractionError::HeaderName.message(), "header value without a header name");
    assert_eq!(ExtractionError::HeaderValue.message(), "header value is not text");
    assert_eq!(
        ExtractionError::Authorization.message(),
        "authorization header is missing or of another scheme"
    );
    assert_eq!(
        ExtractionError::ContentType.message(),
        "content type is not the one that this route decodes"
    );
}
