//! The laws the library states of itself, proved over the spec functions
//! its contracts use.

use vstd::prelude::*;

use crate::auth::spec_authorize;
use crate::auth::spec_header_token;
use crate::errors::Error;
use crate::models::ParkingView;
use crate::models::UserView;
use crate::security::password_matches;
use crate::store::StoreView;
use crate::store::spec_consumed;
use crate::store::spec_get_parking_password;
use crate::store::spec_has_login;
use crate::store::spec_has_parking_id;
use crate::store::spec_join_parking;
use crate::store::spec_list_parkings;
use crate::store::spec_log_in;
use crate::store::spec_owned;
use crate::store::spec_parking_of_id;
use crate::store::spec_parking_of_match;
use crate::store::spec_register;
use crate::store::spec_strip_all;
use crate::token::TOKEN_LIFETIME_SECONDS;
use crate::token::signed_token;
use crate::token::spec_validate_token;
use crate::token::token_claims;
use vstd::utf8::encode_utf8;

verus! {

/// A token embedding claims `(id, exp)` — as every token issued for `id`
/// does, by the issuer's contract — validates to `id` at every instant
/// strictly before `exp`, and fails with `InvalidToken` at `exp` and
/// after.
pub proof fn lemma_token_validation_window(
    key: Seq<u8>,
    token: Seq<char>,
    id: u64,
    exp: u64,
    now: u64,
)
    requires
        token_claims(key, token) == Some((id, exp)),
    ensures
        now < exp ==> spec_validate_token(key, token, now) == Ok::<u64, Error>(id),
        now >= exp ==> spec_validate_token(key, token, now) == Err::<u64, Error>(
            Error::InvalidToken,
        ),
{
}

/// A gate that does not insist on identity lets a headerless request
/// through as anonymous.
pub proof fn lemma_gate_optional_no_header(key: Seq<u8>, now: u64)
    ensures
        spec_authorize(None, false, key, now) == Ok::<Option<u64>, Error>(None),
{
}

/// Even a lenient gate turns away a header it cannot read as a bearer
/// credential (readable text without the expected prefix), instead of
/// downgrading the caller to anonymous.
pub proof fn lemma_gate_optional_malformed_header(header: Seq<u8>, key: Seq<u8>, now: u64)
    requires
        spec_header_token(Some(header)) == Err::<Seq<char>, Error>(Error::InvalidAuthHeader),
    ensures
        spec_authorize(Some(header), false, key, now) == Err::<Option<u64>, Error>(
            Error::InvalidAuthHeader,
        ),
{
}

/// A gate that insists on identity answers a headerless request with
/// `NoAuthHeader`.
pub proof fn lemma_gate_obligatory_no_header(key: Seq<u8>, now: u64)
    ensures
        spec_authorize(None, true, key, now) == Err::<Option<u64>, Error>(Error::NoAuthHeader),
{
}

/// Only the owner reads a parking's secret: the owner's read succeeds,
/// and any other identity — or none at all — fails with `NoPermission`,
/// as does a read of an unknown parking.
pub proof fn lemma_owner_alone_reads_secret(s: StoreView, parking_id: u64, user_id: Option<u64>)
    requires
        s.wf(),
    ensures
        match spec_parking_of_id(s.parkings, parking_id) {
            Some(p) => (user_id == Some(p.admin_id) ==> spec_get_parking_password(
                s,
                parking_id,
                user_id,
            ) == Ok::<ParkingView, Error>(p)) && (user_id != Some(p.admin_id)
                ==> spec_get_parking_password(s, parking_id, user_id) == Err::<ParkingView, Error>(
                Error::NoPermission,
            )),
            None => spec_get_parking_password(s, parking_id, user_id) == Err::<ParkingView, Error>(
                Error::NoPermission,
            ),
        },
{
}

/// Registering the same login twice fails the second time with
/// `LoginInUse`, whatever identity and hash accompany the second
/// attempt.
pub proof fn lemma_register_twice_login_in_use(
    s: StoreView,
    login: Seq<char>,
    h1: Seq<char>,
    h2: Seq<char>,
    user_id2: Option<u64>,
)
    requires
        spec_register(s, login, h1, None).0 is Ok,
    ensures
        spec_register(spec_register(s, login, h1, None).1, login, h2, user_id2).0 == Err::<
            u64,
            Error,
        >(Error::LoginInUse),
{
    let s2 = spec_register(s, login, h1, None).1;
    assert(s2.users[s.users.len() as int].login == Some(login));
    assert(spec_has_login(s2.users, login));
}

/// After an anonymous registration of `login` under a hash that verifies
/// `password`, logging in with that login and password names exactly the
/// subject identifier the registration returned.
pub proof fn lemma_register_then_log_in(
    s: StoreView,
    login: Seq<char>,
    h: Seq<char>,
    password: Seq<char>,
)
    requires
        s.wf(),
        spec_register(s, login, h, None).0 is Ok,
        password_matches(h, encode_utf8(password)),
    ensures
        spec_log_in(spec_register(s, login, h, None).1, login, password) == Ok::<u64, Error>(
            spec_register(s, login, h, None).0->Ok_0,
        ),
{
    let s2 = spec_register(s, login, h, None).1;
    let n = s.users.len() as int;
    assert(s2.users[n] == UserView {
        id: s.next_user_id,
        login: Some(login),
        password: Some(h),
    });
    assert(spec_has_login(s2.users, login));
    let k = choose|k: int|
        0 <= k < s2.users.len() && (#[trigger] s2.users[k]).login == Some(login);
    if k != n {
        assert(s2.users[k] == s.users[k]);
        assert(spec_has_login(s.users, login));
        assert(false);
    }
}

/// An anonymous join of a matching parking returns the fresh guest's
/// token, and the guest's own listing afterwards shows that parking —
/// first, since the new membership row is the latest.
pub proof fn lemma_anonymous_join_lists_parking(
    s: StoreView,
    name: Seq<char>,
    password: Seq<char>,
    key: Seq<u8>,
    now: u64,
)
    requires
        s.wf(),
        spec_join_parking(s, name, password, None, key, now).0 is Ok,
    ensures
        ({
            let (r, s2) = spec_join_parking(s, name, password, None, key, now);
            let listed = spec_list_parkings(s2, s.next_user_id);
            (r->Ok_0.0 == Some(
                signed_token(key, s.next_user_id, (now + TOKEN_LIFETIME_SECONDS) as u64),
            )) && listed.len() > 0 && listed[0] == r->Ok_0.1.without_password()
        }),
{
    let (r, s2) = spec_join_parking(s, name, password, None, key, now);
    let p = spec_parking_of_match(s.parkings, name, password)->Some_0;
    let gid = s.next_user_id;
    assert(s2.consumers.drop_last() =~= s.consumers);
    assert(s2.consumers.last().consumer_id == gid);
    assert(spec_has_parking_id(s.parkings, p.parking_id));
    let w = choose|w: int|
        0 <= w < s.parkings.len() && (#[trigger] s.parkings[w]).parking_id == p.parking_id;
    let k0 = choose|k0: int|
        0 <= k0 < s.parkings.len() && (#[trigger] s.parkings[k0]).name == name
            && s.parkings[k0].password == password;
    if w != k0 {
        assert(false);
    }
    assert(spec_parking_of_id(s2.parkings, s2.consumers.last().parking_id) == Some(p));
    let tail = spec_consumed(s2.parkings, s.consumers, gid);
    assert(spec_consumed(s2.parkings, s2.consumers, gid) == tail.push(p));
    let rev = spec_consumed(s2.parkings, s2.consumers, gid).reverse();
    assert(rev[0] == p);
    assert(spec_strip_all(rev)[0] == p.without_password());
    assert(spec_list_parkings(s2, gid)[0] == p.without_password());
}

/// The caller-visible listing order: with owned parkings `[a, b]` (in
/// storage order) and joined parkings `[x, y]` (in membership-row
/// order), the listing is exactly `[y, x, a, b]`, secrets stripped.
pub proof fn lemma_listing_order(
    s: StoreView,
    uid: u64,
    a: ParkingView,
    b: ParkingView,
    x: ParkingView,
    y: ParkingView,
)
    requires
        spec_owned(s.parkings, uid) == seq![a, b],
        spec_consumed(s.parkings, s.consumers, uid) == seq![x, y],
    ensures
        spec_list_parkings(s, uid) =~= seq![
            y.without_password(),
            x.without_password(),
            a.without_password(),
            b.without_password(),
        ],
{
    let rev = spec_consumed(s.parkings, s.consumers, uid).reverse();
    assert(rev =~= seq![y, x]);
    assert(spec_strip_all(rev) =~= seq![y.without_password(), x.without_password()]);
    assert(spec_strip_all(spec_owned(s.parkings, uid)) =~= seq![
        a.without_password(),
        b.without_password(),
    ]);
}

} // verus!
