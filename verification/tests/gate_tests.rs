use parking_auth::auth::authorize;
use parking_auth::auth::jwt_from_header;
use parking_auth::errors::Error;
use parking_auth::token::TOKEN_LIFETIME_SECONDS;
use parking_auth::token::issue_token;

const KEY: &[u8] = b"gate signing secret";

fn bearer(token: &str) -> Vec<u8> {
    format!("Bearer {}", token).into_bytes()
}

#[test]
fn optional_mode_no_header_resolves_to_no_identity() {
    assert_eq!(authorize(None, false, KEY, 0), Ok(None));
}

#[test]
fn optional_mode_malformed_header_rejects() {
    let header = b"Token xyz".to_vec();
    assert_eq!(
        authorize(Some(&header), false, KEY, 0),
        Err(Error::InvalidAuthHeader)
    );
}

#[test]
fn obligatory_mode_no_header_rejects() {
    assert_eq!(authorize(None, true, KEY, 0), Err(Error::NoAuthHeader));
}

#[test]
fn valid_bearer_token_resolves_to_subject() {
    let token = issue_token(5, 1000, KEY).unwrap();
    let header = bearer(&token);
    assert_eq!(authorize(Some(&header), true, KEY, 500), Ok(Some(5)));
    assert_eq!(authorize(Some(&header), false, KEY, 500), Ok(Some(5)));
}

#[test]
fn expired_bearer_token_rejects_in_both_modes() {
    let token = issue_token(5, 1000, KEY).unwrap();
    let header = bearer(&token);
    let exp = 1000 + TOKEN_LIFETIME_SECONDS;
    assert_eq!(
        authorize(Some(&header), true, KEY, exp),
        Err(Error::InvalidToken)
    );
    assert_eq!(
        authorize(Some(&header), false, KEY, exp),
        Err(Error::InvalidToken)
    );
}

#[test]
fn invalid_utf8_header_is_treated_as_missing() {
    let header = vec![0x42, 0xff, 0xfe];
    assert_eq!(authorize(Some(&header), false, KEY, 0), Ok(None));
    assert_eq!(
        authorize(Some(&header), true, KEY, 0),
        Err(Error::NoAuthHeader)
    );
}

#[test]
fn bearer_prefix_is_case_sensitive_and_exact() {
    let lower = b"bearer abc".to_vec();
    assert_eq!(
        authorize(Some(&lower), false, KEY, 0),
        Err(Error::InvalidAuthHeader)
    );
    let short = b"Bearer".to_vec();
    assert_eq!(
        authorize(Some(&short), true, KEY, 0),
        Err(Error::InvalidAuthHeader)
    );
}

#[test]
fn garbage_after_prefix_is_an_invalid_token() {
    let header = b"Bearer garbage".to_vec();
    assert_eq!(
        authorize(Some(&header), false, KEY, 0),
        Err(Error::InvalidToken)
    );
}

#[test]
fn header_extraction_strips_one_bearer_prefix() {
    let header = b"Bearer abc.def.ghi".to_vec();
    assert_eq!(jwt_from_header(Some(&header)), Ok("abc.def.ghi".to_string()));
    let doubled = b"Bearer Bearer x".to_vec();
    assert_eq!(jwt_from_header(Some(&doubled)), Ok("Bearer x".to_string()));
    assert_eq!(jwt_from_header(None), Err(Error::NoAuthHeader));
}
