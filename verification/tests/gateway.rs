use std::collections::HashMap;

use willow_sync::gateway::AuthError;
use willow_sync::gateway::JwtConfig;
use willow_sync::gateway::WriteCapability;
use willow_sync::gateway::WriteableConfig;
use willow_sync::gateway::summarize_car_write;

fn token_with_exp(secret: &[u8], exp: u64) -> String {
    let mut claims: HashMap<String, u64> = HashMap::new();
    claims.insert("exp".to_string(), exp);
    jsonwebtoken::encode(
        &jsonwebtoken::Header::default(),
        &claims,
        &jsonwebtoken::EncodingKey::from_secret(secret),
    )
    .expect("token")
}

#[test]
fn writing_disabled_rejects() {
    let r = WriteCapability::from_request(&WriteableConfig::Disabled, Some("anything"));
    assert!(matches!(r, Err(AuthError::WritingDisabled)));
    let r = WriteCapability::from_request(&WriteableConfig::Disabled, None);
    assert!(matches!(r, Err(AuthError::WritingDisabled)));
}

#[test]
fn unprotected_admits() {
    let r = WriteCapability::from_request(&WriteableConfig::Unprotected, None);
    assert!(r.is_ok());
}

#[test]
fn jwt_requires_a_token() {
    let config = WriteableConfig::Jwt(JwtConfig::from_secret_hs256("SECRET-REDACTED").unwrap());
    let r = WriteCapability::from_request(&config, None);
    assert!(matches!(r, Err(AuthError::MissingToken)));
}

#[test]
fn jwt_accepts_a_valid_token() {
    let config = WriteableConfig::Jwt(JwtConfig::from_secret_hs256("SECRET-REDACTED").unwrap());
    // Expires far in the future.
    let token = token_with_exp(b"SECRET-REDACTED", 4102444800);
    let r = WriteCapability::from_request(&config, Some(token.as_str()));
    assert!(r.is_ok());
}

#[test]
fn jwt_rejects_garbage_and_wrong_secret() {
    let config = WriteableConfig::Jwt(JwtConfig::from_secret_hs256("SECRET-REDACTED").unwrap());
    let r = WriteCapability::from_request(&config, Some("not-a-token"));
    assert!(matches!(r, Err(AuthError::InvalidToken(_))));

    let other = token_with_exp(b"other-secret", 4102444800);
    let r = WriteCapability::from_request(&config, Some(other.as_str()));
    assert!(matches!(r, Err(AuthError::InvalidToken(_))));
}

#[test]
fn jwt_rejects_expired_token() {
    let config = WriteableConfig::Jwt(JwtConfig::from_secret_hs256("SECRET-REDACTED").unwrap());
    // Expired long ago.
    let token = token_with_exp(b"SECRET-REDACTED", 946684800);
    let r = WriteCapability::from_request(&config, Some(token.as_str()));
    assert!(matches!(r, Err(AuthError::InvalidToken(_))));
}

#[test]
fn auth_error_reporting() {
    assert_eq!(AuthError::WritingDisabled.status_code(), 501);
    assert_eq!(AuthError::MissingToken.status_code(), 401);
    assert_eq!(
        AuthError::WritingDisabled.message(),
        "This gateway is not writable"
    );
    assert_eq!(
        AuthError::MissingToken.message(),
        "Authentication token is required"
    );
}

#[test]
fn car_write_summary() {
    let roots = vec!["bafyone".to_string(), "bafytwo".to_string()];
    let sizes = vec![10usize, 20, 30];
    let out = summarize_car_write(roots, &sizes);
    assert!(out.success);
    assert_eq!(out.blocks, 3);
    assert_eq!(out.bytes, 60);
    assert_eq!(out.roots, vec!["bafyone".to_string(), "bafytwo".to_string()]);
}
