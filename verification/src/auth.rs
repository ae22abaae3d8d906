//! The authentication gate: extracts a bearer token from a request's
//! `Authorization` header and resolves it to an optional identity, in
//! either obligatory ("identity required") or optional mode.

use vstd::prelude::*;

use crate::errors::Error;
use crate::token::spec_validate_token;
use crate::token::validate_token;
use vstd::utf8::decode_utf8;
use vstd::utf8::valid_utf8;

verus! {

/// The literal prefix a well-formed `Authorization` header starts with.
pub open spec fn bearer_prefix() -> Seq<char> {
    seq!['B', 'e', 'a', 'r', 'e', 'r', ' ']
}

/// The raw bytes of the `Authorization` header, if the request carried one.
pub open spec fn spec_header_view(header: Option<&Vec<u8>>) -> Option<Seq<u8>> {
    match header {
        None => None,
        Some(bytes) => Some(bytes@),
    }
}

/// The token text a header resolves to. A missing header and one that is
/// not valid UTF-8 are deliberately indistinguishable (`NoAuthHeader`); a
/// header that decodes but does not start with `"Bearer "` is
/// `InvalidAuthHeader`; otherwise the text after the prefix is the token.
pub open spec fn spec_header_token(header: Option<Seq<u8>>) -> Result<Seq<char>, Error> {
    match header {
        None => Err(Error::NoAuthHeader),
        Some(bytes) => if !valid_utf8(bytes) {
            Err(Error::NoAuthHeader)
        } else {
            let text = decode_utf8(bytes);
            if text.len() >= 7 && text.take(7) == bearer_prefix() {
                Ok(text.skip(7))
            } else {
                Err(Error::InvalidAuthHeader)
            }
        },
    }
}

/// Relies on std's `str::from_utf8`: `Some` exactly on valid UTF-8 input,
/// decoding to the characters that vstd's `decode_utf8` gives.
#[verifier::external_body]
fn header_text(bytes: &Vec<u8>) -> (r: Option<String>)
    ensures
        match r {
            Some(s) => valid_utf8(bytes@) && s@ == decode_utf8(bytes@),
            None => !valid_utf8(bytes@),
        },
{
    match std::str::from_utf8(bytes.as_slice()) {
        Ok(s) => Some(s.to_owned()),
        Err(_) => None,
    }
}

/// Whether the first seven characters of `s` are exactly `"Bearer "`.
fn has_bearer_prefix(s: &str) -> (b: bool)
    requires
        s@.len() >= 7,
    ensures
        b == (s@.take(7) == bearer_prefix()),
{
    let b0 = s.get_char(0) == 'B';
    let b1 = s.get_char(1) == 'e';
    let b2 = s.get_char(2) == 'a';
    let b3 = s.get_char(3) == 'r';
    let b4 = s.get_char(4) == 'e';
    let b5 = s.get_char(5) == 'r';
    let b6 = s.get_char(6) == ' ';
    let ok = b0 && b1 && b2 && b3 && b4 && b5 && b6;
    proof {
        if ok {
            assert(s@.take(7) =~= bearer_prefix());
        } else {
            if s@.take(7) == bearer_prefix() {
                assert(s@[0] == bearer_prefix()[0]);
                assert(s@[1] == bearer_prefix()[1]);
                assert(s@[2] == bearer_prefix()[2]);
                assert(s@[3] == bearer_prefix()[3]);
                assert(s@[4] == bearer_prefix()[4]);
                assert(s@[5] == bearer_prefix()[5]);
                assert(s@[6] == bearer_prefix()[6]);
            }
        }
    }
    ok
}

/// Reads the bearer token out of the `Authorization` header bytes: absent
/// or non-UTF-8 headers are `NoAuthHeader`, a header without the
/// `"Bearer "` prefix is `InvalidAuthHeader`, and otherwise the text after
/// the prefix is returned.
pub fn jwt_from_header(header: Option<&Vec<u8>>) -> (r: Result<String, Error>)
    ensures
        match spec_header_token(spec_header_view(header)) {
            Ok(token) => r matches Ok(s) && s@ == token,
            Err(e) => r == Err::<String, Error>(e),
        },
{
    let bytes = match header {
        None => {
            return Err(Error::NoAuthHeader);
        },
        Some(bytes) => bytes,
    };
    let text = match header_text(bytes) {
        None => {
            return Err(Error::NoAuthHeader);
        },
        Some(text) => text,
    };
    let text_len = text.as_str().unicode_len();
    if text_len < 7 {
        return Err(Error::InvalidAuthHeader);
    }
    if !has_bearer_prefix(text.as_str()) {
        return Err(Error::InvalidAuthHeader);
    }
    let token = text.as_str().substring_char(7, text_len).to_owned();
    Ok(token)
}

/// The decision taken for given header bytes under a signing secret
/// and a clock reading.
pub open spec fn spec_authorize(
    header: Option<Seq<u8>>,
    obligatory: bool,
    key: Seq<u8>,
    now: u64,
) -> Result<Option<u64>, Error> {
    match spec_header_token(header) {
        Ok(token) => match spec_validate_token(key, token, now) {
            Ok(id) => Ok(Some(id)),
            Err(_) => Err(Error::InvalidToken),
        },
        Err(e) => if e == Error::NoAuthHeader && !obligatory {
            Ok(None)
        } else {
            Err(e)
        },
    }
}

/// Resolves the `Authorization` header bytes to an optional identity at
/// instant `now`, under the shared signing secret.
pub fn authorize(
    header: Option<&Vec<u8>>,
    obligatory: bool,
    jwt_secret: &[u8],
    now: u64,
) -> (r: Result<Option<u64>, Error>)
    ensures
        r == spec_authorize(spec_header_view(header), obligatory, jwt_secret@, now),
{
    match jwt_from_header(header) {
        Ok(token) => match validate_token(token.as_str(), jwt_secret, now) {
            Ok(id) => Ok(Some(id)),
            Err(_) => Err(Error::InvalidToken),
        },
        Err(e) => if matches!(e, Error::NoAuthHeader) && !obligatory {
            Ok(None)
        } else {
            Err(e)
        },
    }
}

} // verus!
