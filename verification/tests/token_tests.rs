use parking_auth::errors::Error;
use parking_auth::token::TOKEN_LIFETIME_SECONDS;
use parking_auth::token::create_jwt;
use parking_auth::token::issue_token;
use parking_auth::token::validate_token;

const KEY: &[u8] = b"test signing secret";

fn flip_char(s: &str, i: usize) -> String {
    let mut chars: Vec<char> = s.chars().collect();
    chars[i] = if chars[i] == 'A' { 'B' } else { 'A' };
    chars.into_iter().collect()
}

#[test]
fn issued_token_validates_to_subject_before_expiry() {
    let token = issue_token(42, 1000, KEY).unwrap();
    assert_eq!(validate_token(&token, KEY, 1000), Ok(42));
    assert_eq!(
        validate_token(&token, KEY, 1000 + TOKEN_LIFETIME_SECONDS - 1),
        Ok(42)
    );
}

#[test]
fn issued_token_fails_from_expiry_on() {
    let token = issue_token(42, 1000, KEY).unwrap();
    let exp = 1000 + TOKEN_LIFETIME_SECONDS;
    assert_eq!(validate_token(&token, KEY, exp), Err(Error::InvalidToken));
    assert_eq!(
        validate_token(&token, KEY, exp + 1),
        Err(Error::InvalidToken)
    );
}

#[test]
fn tampered_payload_invalidates_token() {
    let token = issue_token(42, 1000, KEY).unwrap();
    let dot = token.find('.').unwrap();
    let tampered = flip_char(&token, dot + 2);
    assert_ne!(token, tampered);
    assert_eq!(validate_token(&tampered, KEY, 1000), Err(Error::InvalidToken));
}

#[test]
fn tampered_signature_invalidates_token() {
    let token = issue_token(42, 1000, KEY).unwrap();
    let tampered = flip_char(&token, token.chars().count() - 1);
    assert_ne!(token, tampered);
    assert_eq!(validate_token(&tampered, KEY, 1000), Err(Error::InvalidToken));
}

#[test]
fn wrong_key_invalidates_token() {
    let token = issue_token(42, 1000, KEY).unwrap();
    assert_eq!(
        validate_token(&token, b"another secret", 1000),
        Err(Error::InvalidToken)
    );
}

#[test]
fn garbage_token_is_invalid() {
    assert_eq!(validate_token("", KEY, 0), Err(Error::InvalidToken));
    assert_eq!(
        validate_token("not.a.token", KEY, 0),
        Err(Error::InvalidToken)
    );
}

#[test]
fn create_jwt_issues_a_validating_token() {
    let token = create_jwt(&7, KEY).unwrap();
    assert_eq!(validate_token(&token, KEY, 0), Ok(7));
}

#[test]
fn hs512_header_is_required() {
    // A token signed under a different algorithm family must be rejected
    // even with the right secret.
    let header = jsonwebtoken::Header::new(jsonwebtoken::Algorithm::HS256);
    let mut payload = serde_json::Map::new();
    payload.insert("exp".to_string(), serde_json::Value::from(10_000_u64));
    payload.insert("id".to_string(), serde_json::Value::from(42_u64));
    let token = jsonwebtoken::encode(
        &header,
        &serde_json::Value::Object(payload),
        &jsonwebtoken::EncodingKey::from_secret(KEY),
    )
    .unwrap();
    assert_eq!(validate_token(&token, KEY, 0), Err(Error::InvalidToken));
}

#[test]
fn error_status_codes_follow_the_taxonomy() {
    assert_eq!(Error::NoAuthHeader.status_code(), 401);
    assert_eq!(Error::InvalidAuthHeader.status_code(), 401);
    assert_eq!(Error::InvalidToken.status_code(), 401);
    assert_eq!(Error::TokenCreationFailed.status_code(), 500);
    assert_eq!(Error::WrongCredentials.status_code(), 401);
    assert_eq!(Error::NoPermission.status_code(), 403);
    assert_eq!(Error::LoginInUse.status_code(), 400);
    assert_eq!(Error::Unauthorized.status_code(), 401);
    assert_eq!(Error::WrongResource.status_code(), 400);
}
