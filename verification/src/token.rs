//! Token issuer and validator: minting of signed, time-limited bearer
//! tokens binding a subject identifier, and their validation.

use vstd::prelude::*;

use crate::errors::Error;

verus! {

/// Tokens live for 60 hours from issuance.
pub const TOKEN_LIFETIME_SECONDS: u64 = 60 * 3600;

/// The payload of a token: the subject identifier and the expiry instant
/// (seconds since the Unix epoch).
#[derive(Clone, Copy, Debug, PartialEq, Eq, Structural)]
pub struct Claims {
    pub id: u64,
    pub exp: u64,
}

/// The compact signed token that `jsonwebtoken::encode` produces for the
/// claims `{id, exp}` under an HS512 header and the HMAC secret `key`: a
/// deterministic function of its three arguments (fixed JSON rendering,
/// base64url, HMAC-SHA512), named rather than spelled out because nothing
/// short of the whole construction states it.
pub uninterp spec fn signed_token(key: Seq<u8>, id: u64, exp: u64) -> Seq<char>;

/// The claims that `jsonwebtoken::decode` recovers from `token` under the
/// secret `key` with the algorithm pinned to HS512 and expiry validation
/// turned off: `Some((id, exp))` exactly when the token is well-formed,
/// declares HS512, carries a valid signature under `key`, and embeds
/// unsigned integer `id` and `exp` claims; `None` on every other input.
pub uninterp spec fn token_claims(key: Seq<u8>, token: Seq<char>) -> Option<(u64, u64)>;

/// Relies on `jsonwebtoken::encode` with an HS512 header: the token is a
/// function of the claims and the secret alone, and `jsonwebtoken::decode`
/// under the same secret recovers exactly the claims that were signed.
#[verifier::external_body]
fn jwt_encode_hs512(claims: &Claims, key: &[u8]) -> (r: Result<String, Error>)
    ensures
        r matches Ok(t) ==> t@ == signed_token(key@, claims.id, claims.exp),
        r matches Ok(t) ==> token_claims(key@, t@) == Some((claims.id, claims.exp)),
        r matches Err(e) ==> e == Error::TokenCreationFailed,
{
    let mut payload = serde_json::Map::new();
    payload.insert("exp".to_string(), serde_json::Value::from(claims.exp));
    payload.insert("id".to_string(), serde_json::Value::from(claims.id));
    let header = jsonwebtoken::Header::new(jsonwebtoken::Algorithm::HS512);
    let key = jsonwebtoken::EncodingKey::from_secret(key);
    jsonwebtoken::encode(&header, &serde_json::Value::Object(payload), &key)
        .map_err(|_| Error::TokenCreationFailed)
}

/// Relies on `jsonwebtoken::decode` with the algorithm pinned to HS512 and
/// expiry validation turned off: acceptance and the recovered claims are a
/// function of the token and the secret alone.
#[verifier::external_body]
fn jwt_decode_hs512(token: &str, key: &[u8]) -> (r: Option<Claims>)
    ensures
        match token_claims(key@, token@) {
            Some(c) => r == Some(Claims { id: c.0, exp: c.1 }),
            None => r is None,
        },
{
    let mut validation = jsonwebtoken::Validation::new(jsonwebtoken::Algorithm::HS512);
    validation.validate_exp = false;
    validation.validate_aud = false;
    validation.required_spec_claims = std::collections::HashSet::new();
    let key = jsonwebtoken::DecodingKey::from_secret(key);
    let data = jsonwebtoken::decode::<serde_json::Value>(token, &key, &validation).ok()?;
    let id = data.claims.get("id")?.as_u64()?;
    let exp = data.claims.get("exp")?.as_u64()?;
    Some(Claims { id, exp })
}

/// Relies on `chrono::Utc::now`: the wall clock's seconds since the Unix
/// epoch. Nothing is assumed of the value read.
#[verifier::external_body]
fn current_timestamp() -> (now: i64) {
    chrono::Utc::now().timestamp()
}

/// Mints a token for `id` expiring `TOKEN_LIFETIME_SECONDS` after `now`,
/// signed with HMAC-SHA512 under `jwt_secret`. Fails only if signing itself
/// fails, and then with `TokenCreationFailed`; no unsigned token is ever
/// returned.
pub fn issue_token(id: u64, now: u64, jwt_secret: &[u8]) -> (r: Result<String, Error>)
    requires
        now + TOKEN_LIFETIME_SECONDS <= u64::MAX,
    ensures
        r matches Ok(t) ==> t@ == signed_token(
            jwt_secret@,
            id,
            (now + TOKEN_LIFETIME_SECONDS) as u64,
        ),
        r matches Ok(t) ==> token_claims(jwt_secret@, t@) == Some(
            (id, (now + TOKEN_LIFETIME_SECONDS) as u64),
        ),
        r matches Err(e) ==> e == Error::TokenCreationFailed,
{
    let claims = Claims { id, exp: now + TOKEN_LIFETIME_SECONDS };
    jwt_encode_hs512(&claims, jwt_secret)
}

/// Mints a token for `id` expiring 60 hours from the current wall-clock
/// time. A clock reading that would overflow the expiry is reported as
/// `TokenCreationFailed`, the non-recoverable class reserved for signing
/// failures, never masked as a credential error.
pub fn create_jwt(id: &u64, jwt_secret: &[u8]) -> (r: Result<String, Error>)
    ensures
        r matches Ok(t) ==> exists|e: u64|
            t@ == signed_token(jwt_secret@, *id, e) && #[trigger] token_claims(
                jwt_secret@,
                t@,
            ) == Some((*id, e)),
        r matches Err(e) ==> e == Error::TokenCreationFailed,
{
    let now = current_timestamp();
    if now < 0 {
        return Err(Error::TokenCreationFailed);
    }
    let now = now as u64;
    if now > u64::MAX - TOKEN_LIFETIME_SECONDS {
        return Err(Error::TokenCreationFailed);
    }
    let r = issue_token(*id, now, jwt_secret);
    proof {
        if r is Ok {
            let e: u64 = (now + TOKEN_LIFETIME_SECONDS) as u64;
            assert(token_claims(jwt_secret@, r->Ok_0@) == Some((*id, e)));
        }
    }
    r
}

/// What validating `token` under `key` at instant `now` yields: the subject
/// identifier exactly when the token's signature, algorithm and shape are
/// accepted and `now` is strictly before the embedded expiry; `InvalidToken`
/// on every other input.
pub open spec fn spec_validate_token(key: Seq<u8>, token: Seq<char>, now: u64) -> Result<
    u64,
    Error,
> {
    match token_claims(key, token) {
        Some(c) => if now < c.1 {
            Ok(c.0)
        } else {
            Err(Error::InvalidToken)
        },
        None => Err(Error::InvalidToken),
    }
}

/// Verifies `token`'s signature and declared algorithm under `jwt_secret`
/// and checks that `now` is strictly before its expiry, recovering the
/// subject identifier. Any failure is the single undifferentiated
/// `InvalidToken`.
pub fn validate_token(token: &str, jwt_secret: &[u8], now: u64) -> (r: Result<u64, Error>)
    ensures
        r == spec_validate_token(jwt_secret@, token@, now),
{
    match jwt_decode_hs512(token, jwt_secret) {
        Some(claims) => if now < claims.exp {
            Ok(claims.id)
        } else {
            Err(Error::InvalidToken)
        },
        None => Err(Error::InvalidToken),
    }
}

} // verus!
