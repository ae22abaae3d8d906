//! The membership authorizer: the shared domain state (users, parkings,
//! membership rows) and the operations that decide who may read a
//! resource's secret, who may register or update credentials, how join
//! requests are resolved, and what a caller's listing shows.
//!
//! The store is the single shared mutable state of the service; a caller
//! guards it with one exclusive lock for the duration of each request's
//! read-then-write sequence.

use vstd::prelude::*;

use crate::errors::Error;
use crate::models::Parking;
use crate::models::ParkingConsumer;
use crate::models::ParkingView;
use crate::models::ParkingWithoutPassword;
use crate::models::ParkingWithoutPasswordView;
use crate::models::User;
use crate::models::UserView;
use crate::schema::CreateParkingRequest;
use crate::schema::JoinParkingRequest;
use crate::schema::JoinParkingResponse;
use crate::schema::UserCredentials;
use crate::security::hash;
use crate::security::password_matches;
use crate::security::verify;
use crate::token::TOKEN_LIFETIME_SECONDS;
use crate::token::issue_token;
use crate::token::signed_token;
use crate::token::token_claims;
use vstd::utf8::encode_utf8;

verus! {

/// The domain state: user rows, parking rows, membership rows, and the
/// identifiers the next inserted user and parking will receive.
pub struct Store {
    users: Vec<User>,
    parkings: Vec<Parking>,
    consumers: Vec<ParkingConsumer>,
    next_user_id: u64,
    next_parking_id: u64,
}

/// The mathematical image of a `Store`.
#[verifier::ext_equal]
pub struct StoreView {
    pub users: Seq<UserView>,
    pub parkings: Seq<ParkingView>,
    pub consumers: Seq<ParkingConsumer>,
    pub next_user_id: u64,
    pub next_parking_id: u64,
}

impl View for Store {
    type V = StoreView;

    closed spec fn view(&self) -> StoreView {
        StoreView {
            users: self.users.deep_view(),
            parkings: self.parkings.deep_view(),
            consumers: self.consumers.deep_view(),
            next_user_id: self.next_user_id,
            next_parking_id: self.next_parking_id,
        }
    }
}

/// Whether some user carries `login`.
pub open spec fn spec_has_login(users: Seq<UserView>, login: Seq<char>) -> bool {
    exists|i: int| 0 <= i < users.len() && (#[trigger] users[i]).login == Some(login)
}

/// The user carrying `login`, unique in a well-formed store.
pub open spec fn spec_user_of_login(users: Seq<UserView>, login: Seq<char>) -> Option<UserView> {
    if spec_has_login(users, login) {
        let i = choose|i: int| 0 <= i < users.len() && (#[trigger] users[i]).login == Some(login);
        Some(users[i])
    } else {
        None
    }
}

/// Whether some user has identifier `id`.
pub open spec fn spec_has_user_id(users: Seq<UserView>, id: u64) -> bool {
    exists|i: int| 0 <= i < users.len() && (#[trigger] users[i]).id == id
}

/// The index of the user with identifier `id`, unique in a well-formed
/// store.
pub open spec fn spec_user_idx_of_id(users: Seq<UserView>, id: u64) -> int {
    choose|i: int| 0 <= i < users.len() && (#[trigger] users[i]).id == id
}

/// Whether some parking has identifier `id`.
pub open spec fn spec_has_parking_id(parkings: Seq<ParkingView>, id: u64) -> bool {
    exists|i: int| 0 <= i < parkings.len() && (#[trigger] parkings[i]).parking_id == id
}

/// The parking with identifier `id`, unique in a well-formed store.
pub open spec fn spec_parking_of_id(parkings: Seq<ParkingView>, id: u64) -> Option<ParkingView> {
    if spec_has_parking_id(parkings, id) {
        let i = choose|i: int|
            0 <= i < parkings.len() && (#[trigger] parkings[i]).parking_id == id;
        Some(parkings[i])
    } else {
        None
    }
}

/// Whether some parking carries `name`.
pub open spec fn spec_has_parking_name(parkings: Seq<ParkingView>, name: Seq<char>) -> bool {
    exists|i: int| 0 <= i < parkings.len() && (#[trigger] parkings[i]).name == name
}

/// Whether some parking matches `name` and `password` exactly.
pub open spec fn spec_has_parking_match(
    parkings: Seq<ParkingView>,
    name: Seq<char>,
    password: Seq<char>,
) -> bool {
    exists|i: int|
        0 <= i < parkings.len() && (#[trigger] parkings[i]).name == name && parkings[i].password
            == password
}

/// The parking matching `name` and `password` exactly: the shared-secret
/// lookup a join request performs. The secret is compared as stored, not
/// re-hashed.
pub open spec fn spec_parking_of_match(
    parkings: Seq<ParkingView>,
    name: Seq<char>,
    password: Seq<char>,
) -> Option<ParkingView> {
    if spec_has_parking_match(parkings, name, password) {
        let i = choose|i: int|
            0 <= i < parkings.len() && (#[trigger] parkings[i]).name == name
                && parkings[i].password == password;
        Some(parkings[i])
    } else {
        None
    }
}

impl StoreView {
    /// The store's invariant: every user row is a guest or fully
    /// credentialed; user identifiers, parking identifiers, logins and
    /// parking names are unique; identifiers stay below the next free one;
    /// and every membership row points at an existing parking.
    pub open spec fn wf(self) -> bool {
        &&& forall|i: int| 0 <= i < self.users.len() ==> (#[trigger] self.users[i]).wf()
        &&& forall|i: int|
            0 <= i < self.users.len() ==> (#[trigger] self.users[i]).id < self.next_user_id
        &&& forall|i: int, j: int|
            0 <= i < j < self.users.len() ==> (#[trigger] self.users[i]).id != (
            #[trigger] self.users[j]).id
        &&& forall|i: int, j: int|
            0 <= i < j < self.users.len() && (#[trigger] self.users[i]).login is Some ==> (
            self.users[i]).login != (#[trigger] self.users[j]).login
        &&& forall|i: int|
            0 <= i < self.parkings.len() ==> (#[trigger] self.parkings[i]).parking_id
                < self.next_parking_id
        &&& forall|i: int, j: int|
            0 <= i < j < self.parkings.len() ==> (#[trigger] self.parkings[i]).parking_id != (
            #[trigger] self.parkings[j]).parking_id
        &&& forall|i: int, j: int|
            0 <= i < j < self.parkings.len() ==> (#[trigger] self.parkings[i]).name != (
            #[trigger] self.parkings[j]).name
        &&& forall|i: int|
            0 <= i < self.consumers.len() ==> spec_has_parking_id(
                self.parkings,
                (#[trigger] self.consumers[i]).parking_id,
            )
    }
}

/// Who may read a parking's secret: the owner alone. An absent identity,
/// an unknown parking and a non-owner caller are rejected alike with
/// `NoPermission`, and on success the parking is returned with its stored
/// secret.
pub open spec fn spec_get_parking_password(
    s: StoreView,
    parking_id: u64,
    user_id: Option<u64>,
) -> Result<ParkingView, Error> {
    match user_id {
        None => Err(Error::NoPermission),
        Some(uid) => match spec_parking_of_id(s.parkings, parking_id) {
            None => Err(Error::NoPermission),
            Some(p) => if p.admin_id == uid {
                Ok(p)
            } else {
                Err(Error::NoPermission)
            },
        },
    }
}

/// What promoting the user `id` in place to the credentials given does:
/// unknown users and already-credentialed users fail with `Unauthorized`;
/// an existing guest is promoted, keeping its identifier.
pub open spec fn spec_update_user(
    s: StoreView,
    id: u64,
    login: Seq<char>,
    password_hash: Seq<char>,
) -> (Result<u64, Error>, StoreView) {
    if !spec_has_user_id(s.users, id) {
        (Err(Error::Unauthorized), s)
    } else {
        let k = spec_user_idx_of_id(s.users, id);
        if s.users[k].is_guest() {
            (
                Ok(id),
                StoreView {
                    users: s.users.update(
                        k,
                        UserView { id, login: Some(login), password: Some(password_hash) },
                    ),
                    ..s
                },
            )
        } else {
            (Err(Error::Unauthorized), s)
        }
    }
}

/// What registering `login` with the given password hash does: a taken
/// login fails with `LoginInUse`; an anonymous caller becomes a fresh
/// fully-credentialed user; an identified caller must name an existing
/// guest, which is promoted in place.
pub open spec fn spec_register(
    s: StoreView,
    login: Seq<char>,
    password_hash: Seq<char>,
    user_id: Option<u64>,
) -> (Result<u64, Error>, StoreView) {
    if spec_has_login(s.users, login) {
        (Err(Error::LoginInUse), s)
    } else {
        match user_id {
            None => (
                Ok(s.next_user_id),
                StoreView {
                    users: s.users.push(
                        UserView {
                            id: s.next_user_id,
                            login: Some(login),
                            password: Some(password_hash),
                        },
                    ),
                    next_user_id: (s.next_user_id + 1) as u64,
                    ..s
                },
            ),
            Some(uid) => spec_update_user(s, uid, login, password_hash),
        }
    }
}

/// What creating a parking does: a taken name fails; otherwise the new
/// parking is appended with a fresh identifier and the caller as owner.
pub open spec fn spec_create_parking(
    s: StoreView,
    name: Seq<char>,
    password: Seq<char>,
    admin_id: u64,
) -> (Option<u64>, StoreView) {
    if spec_has_parking_name(s.parkings, name) {
        (None, s)
    } else {
        (
            Some(s.next_parking_id),
            StoreView {
                parkings: s.parkings.push(
                    ParkingView { parking_id: s.next_parking_id, name, password, admin_id },
                ),
                next_parking_id: (s.next_parking_id + 1) as u64,
                ..s
            },
        )
    }
}

/// Whose token a login request earns: the user carrying the login, if its
/// stored hash verifies the password given. An unknown login and a
/// mismatched password are the same undifferentiated `WrongCredentials`.
pub open spec fn spec_log_in(s: StoreView, login: Seq<char>, password: Seq<char>) -> Result<
    u64,
    Error,
> {
    match spec_user_of_login(s.users, login) {
        None => Err(Error::WrongCredentials),
        Some(u) => match u.password {
            Some(h) => if password_matches(h, encode_utf8(password)) {
                Ok(u.id)
            } else {
                Err(Error::WrongCredentials)
            },
            None => Err(Error::WrongCredentials),
        },
    }
}

/// What a join request does. No parking matches the name and secret:
/// `WrongResource`, and nothing changes. A match with an identified
/// caller: a membership row is appended (never de-duplicated) and no
/// token is returned. A match with an anonymous caller: a fresh guest
/// user is provisioned, a token is minted for it, and the membership row
/// names the guest, which can thereafter come back under its token.
pub open spec fn spec_join_parking(
    s: StoreView,
    name: Seq<char>,
    password: Seq<char>,
    user_id: Option<u64>,
    key: Seq<u8>,
    now: u64,
) -> (Result<(Option<Seq<char>>, ParkingView), Error>, StoreView) {
    match spec_parking_of_match(s.parkings, name, password) {
        None => (Err(Error::WrongResource), s),
        Some(p) => match user_id {
            Some(uid) => (
                (Ok((None, p))),
                StoreView {
                    consumers: s.consumers.push(
                        ParkingConsumer { parking_id: p.parking_id, consumer_id: uid },
                    ),
                    ..s
                },
            ),
            None => (
                (Ok(
                    (
                        Some(signed_token(key, s.next_user_id, (now + TOKEN_LIFETIME_SECONDS) as u64)),
                        p,
                    ),
                )),
                StoreView {
                    users: s.users.push(
                        UserView { id: s.next_user_id, login: None, password: None },
                    ),
                    consumers: s.consumers.push(
                        ParkingConsumer { parking_id: p.parking_id, consumer_id: s.next_user_id },
                    ),
                    next_user_id: (s.next_user_id + 1) as u64,
                    ..s
                },
            ),
        },
    }
}

/// The parkings the membership rows give `uid`, one per row, in row
/// order.
pub open spec fn spec_consumed(
    parkings: Seq<ParkingView>,
    consumers: Seq<ParkingConsumer>,
    uid: u64,
) -> Seq<ParkingView>
    decreases consumers.len(),
{
    if consumers.len() == 0 {
        Seq::empty()
    } else {
        let rest = spec_consumed(parkings, consumers.drop_last(), uid);
        if consumers.last().consumer_id == uid {
            match spec_parking_of_id(parkings, consumers.last().parking_id) {
                Some(p) => rest.push(p),
                None => rest,
            }
        } else {
            rest
        }
    }
}

/// The parkings `uid` owns, in storage order.
pub open spec fn spec_owned(parkings: Seq<ParkingView>, uid: u64) -> Seq<ParkingView>
    decreases parkings.len(),
{
    if parkings.len() == 0 {
        Seq::empty()
    } else {
        let rest = spec_owned(parkings.drop_last(), uid);
        if parkings.last().admin_id == uid {
            rest.push(parkings.last())
        } else {
            rest
        }
    }
}

/// Each parking with its secret field stripped.
pub open spec fn spec_strip_all(parkings: Seq<ParkingView>) -> Seq<ParkingWithoutPasswordView> {
    parkings.map_values(|p: ParkingView| p.without_password())
}

/// What a caller's listing shows, secrets stripped: the joined parkings
/// in reverse of their membership rows' storage order, then every owned
/// parking in storage order. Callers depend on this exact order.
pub open spec fn spec_list_parkings(s: StoreView, uid: u64) -> Seq<ParkingWithoutPasswordView> {
    spec_strip_all(spec_consumed(s.parkings, s.consumers, uid).reverse()) + spec_strip_all(
        spec_owned(s.parkings, uid),
    )
}

impl Store {
    /// An empty store; identifiers start at 1 as a serial column would.
    pub fn new() -> (s: Store)
        ensures
            s@.wf(),
            s@.users == Seq::<UserView>::empty(),
            s@.parkings == Seq::<ParkingView>::empty(),
            s@.consumers == Seq::<ParkingConsumer>::empty(),
            s@.next_user_id == 1,
            s@.next_parking_id == 1,
    {
        let s = Store {
            users: Vec::new(),
            parkings: Vec::new(),
            consumers: Vec::new(),
            next_user_id: 1,
            next_parking_id: 1,
        };
        proof {
            assert(s@.users =~= Seq::<UserView>::empty());
            assert(s@.parkings =~= Seq::<ParkingView>::empty());
            assert(s@.consumers =~= Seq::<ParkingConsumer>::empty());
        }
        s
    }

    /// Whether another user row can still receive a fresh identifier.
    pub fn can_insert_user(&self) -> (r: bool)
        ensures
            r == (self@.next_user_id < u64::MAX),
    {
        self.next_user_id < u64::MAX
    }

    /// Whether another parking row can still receive a fresh identifier.
    pub fn can_insert_parking(&self) -> (r: bool)
        ensures
            r == (self@.next_parking_id < u64::MAX),
    {
        self.next_parking_id < u64::MAX
    }

    /// The index of the first user carrying `login`.
    fn user_index_by_login(&self, login: &String) -> (r: Option<usize>)
        ensures
            match r {
                Some(i) => i < self@.users.len() && self@.users[i as int].login == Some(login@)
                    && forall|k: int|
                    0 <= k < i ==> (#[trigger] self@.users[k]).login != Some(login@),
                None => forall|k: int|
                    0 <= k < self@.users.len() ==> (#[trigger] self@.users[k]).login != Some(
                        login@,
                    ),
            },
    {
        let n = self.users.len();
        let mut i: usize = 0;
        while i < n
            invariant
                n == self@.users.len(),
                i <= n,
                forall|k: int| 0 <= k < i ==> (#[trigger] self@.users[k]).login != Some(login@),
            decreases n - i,
        {
            let matched = match &self.users[i].login {
                Some(l) => *l == *login,
                None => false,
            };
            if matched {
                return Some(i);
            }
            i += 1;
        }
        None
    }

    /// The index of the first user with identifier `id`.
    fn user_index_by_id(&self, id: u64) -> (r: Option<usize>)
        ensures
            match r {
                Some(i) => i < self@.users.len() && self@.users[i as int].id == id && forall|k: int|
                    0 <= k < i ==> (#[trigger] self@.users[k]).id != id,
                None => forall|k: int|
                    0 <= k < self@.users.len() ==> (#[trigger] self@.users[k]).id != id,
            },
    {
        let n = self.users.len();
        let mut i: usize = 0;
        while i < n
            invariant
                n == self@.users.len(),
                i <= n,
                forall|k: int| 0 <= k < i ==> (#[trigger] self@.users[k]).id != id,
            decreases n - i,
        {
            if self.users[i].id == id {
                return Some(i);
            }
            i += 1;
        }
        None
    }

    /// The index of the first parking with identifier `id`.
    fn parking_index_by_id(&self, id: u64) -> (r: Option<usize>)
        ensures
            match r {
                Some(i) => i < self@.parkings.len() && self@.parkings[i as int].parking_id == id
                    && forall|k: int|
                    0 <= k < i ==> (#[trigger] self@.parkings[k]).parking_id != id,
                None => forall|k: int|
                    0 <= k < self@.parkings.len() ==> (#[trigger] self@.parkings[k]).parking_id
                        != id,
            },
    {
        let n = self.parkings.len();
        let mut i: usize = 0;
        while i < n
            invariant
                n == self@.parkings.len(),
                i <= n,
                forall|k: int| 0 <= k < i ==> (#[trigger] self@.parkings[k]).parking_id != id,
            decreases n - i,
        {
            if self.parkings[i].parking_id == id {
                return Some(i);
            }
            i += 1;
        }
        None
    }

    /// The index of the first parking carrying `name`.
    fn parking_index_by_name(&self, name: &String) -> (r: Option<usize>)
        ensures
            match r {
                Some(i) => i < self@.parkings.len() && self@.parkings[i as int].name == name@
                    && forall|k: int| 0 <= k < i ==> (#[trigger] self@.parkings[k]).name != name@,
                None => forall|k: int|
                    0 <= k < self@.parkings.len() ==> (#[trigger] self@.parkings[k]).name != name@,
            },
    {
        let n = self.parkings.len();
        let mut i: usize = 0;
        while i < n
            invariant
                n == self@.parkings.len(),
                i <= n,
                forall|k: int| 0 <= k < i ==> (#[trigger] self@.parkings[k]).name != name@,
            decreases n - i,
        {
            if self.parkings[i].name == *name {
                return Some(i);
            }
            i += 1;
        }
        None
    }

    /// The index of the first parking matching `name` and `password`.
    fn parking_index_by_match(&self, name: &String, password: &String) -> (r: Option<usize>)
        ensures
            match r {
                Some(i) => i < self@.parkings.len() && self@.parkings[i as int].name == name@
                    && self@.parkings[i as int].password == password@ && forall|k: int|
                    0 <= k < i ==> !((#[trigger] self@.parkings[k]).name == name@
                        && self@.parkings[k].password == password@),
                None => forall|k: int|
                    0 <= k < self@.parkings.len() ==> !((#[trigger] self@.parkings[k]).name == name@
                        && self@.parkings[k].password == password@),
            },
    {
        let n = self.parkings.len();
        let mut i: usize = 0;
        while i < n
            invariant
                n == self@.parkings.len(),
                i <= n,
                forall|k: int|
                    0 <= k < i ==> !((#[trigger] self@.parkings[k]).name == name@
                        && self@.parkings[k].password == password@),
            decreases n - i,
        {
            if self.parkings[i].name == *name && self.parkings[i].password == *password {
                return Some(i);
            }
            i += 1;
        }
        None
    }

    /// The first user carrying `login`, if any.
    pub fn find_user_by_login(&self, user_login: &String) -> (r: Option<User>)
        requires
            self@.wf(),
        ensures
            r.deep_view() == spec_user_of_login(self@.users, user_login@),
    {
        match self.user_index_by_login(user_login) {
            Some(i) => {
                let u = User {
                    id: self.users[i].id,
                    login: self.users[i].login.clone(),
                    password: self.users[i].password.clone(),
                };
                proof {
                    assert(u@ == self@.users[i as int]);
                    let j = choose|j: int|
                        0 <= j < self@.users.len() && (#[trigger] self@.users[j]).login == Some(
                            user_login@,
                        );
                    assert(self@.users[j].login == self@.users[i as int].login);
                    if j != i as int {
                        assert(false);
                    }
                }
                Some(u)
            },
            None => {
                proof {
                    assert(!spec_has_login(self@.users, user_login@));
                }
                None
            },
        }
    }

    /// Reads a parking's secret: only the owner may. Every other caller,
    /// and every unknown parking, is rejected with `NoPermission`.
    pub fn get_parking_password(&self, parking_id: u64, user_id: Option<u64>) -> (r: Result<
        Parking,
        Error,
    >)
        requires
            self@.wf(),
        ensures
            match r {
                Ok(p) => spec_get_parking_password(self@, parking_id, user_id) == Ok::<
                    ParkingView,
                    Error,
                >(p@),
                Err(e) => spec_get_parking_password(self@, parking_id, user_id) == Err::<
                    ParkingView,
                    Error,
                >(e),
            },
    {
        let uid = match user_id {
            None => {
                return Err(Error::NoPermission);
            },
            Some(uid) => uid,
        };
        match self.parking_index_by_id(parking_id) {
            None => {
                proof {
                    assert(!spec_has_parking_id(self@.parkings, parking_id));
                }
                Err(Error::NoPermission)
            },
            Some(i) => {
                proof {
                    let j = choose|j: int|
                        0 <= j < self@.parkings.len() && (#[trigger] self@.parkings[j]).parking_id
                            == parking_id;
                    if j != i as int {
                        assert(false);
                    }
                }
                if self.parkings[i].admin_id == uid {
                    let p = Parking {
                        parking_id: self.parkings[i].parking_id,
                        name: self.parkings[i].name.clone(),
                        password: self.parkings[i].password.clone(),
                        admin_id: self.parkings[i].admin_id,
                    };
                    proof {
                        assert(p@ == self@.parkings[i as int]);
                    }
                    Ok(p)
                } else {
                    Err(Error::NoPermission)
                }
            },
        }
    }

    /// Inserts a fresh fully-credentialed user and returns its identifier.
    fn create_user(&mut self, login: String, password_hash: String) -> (id: u64)
        requires
            old(self)@.wf(),
            old(self)@.next_user_id < u64::MAX,
            !spec_has_login(old(self)@.users, login@),
        ensures
            final(self)@.wf(),
            id == old(self)@.next_user_id,
            final(self)@ == (StoreView {
                users: old(self)@.users.push(
                    UserView {
                        id: old(self)@.next_user_id,
                        login: Some(login@),
                        password: Some(password_hash@),
                    },
                ),
                next_user_id: (old(self)@.next_user_id + 1) as u64,
                ..old(self)@
            }),
    {
        let id = self.next_user_id;
        let ghost target = StoreView {
            users: old(self)@.users.push(
                UserView { id, login: Some(login@), password: Some(password_hash@) },
            ),
            next_user_id: (id + 1) as u64,
            ..old(self)@
        };
        self.users.push(User { id, login: Some(login), password: Some(password_hash) });
        self.next_user_id = id + 1;
        proof {
            assert(self@ =~= target);
            let s2 = self@;
            let s1 = old(self)@;
            assert forall|i: int, j: int|
                0 <= i < j < s2.users.len() && (#[trigger] s2.users[i]).login is Some implies (
            s2.users[i]).login != (#[trigger] s2.users[j]).login by {
                if j == s2.users.len() - 1 {
                    assert(s2.users[i] == s1.users[i]);
                    assert(s2.users[j].login == Some(login@));
                }
            }
        }
        id
    }

    /// Promotes the guest `id` in place to the credentials given; an
    /// unknown or already-credentialed user is `Unauthorized`.
    fn update_user(&mut self, id: u64, login: String, password_hash: String) -> (r: Result<
        u64,
        Error,
    >)
        requires
            old(self)@.wf(),
            !spec_has_login(old(self)@.users, login@),
        ensures
            final(self)@.wf(),
            (r, final(self)@) == spec_update_user(old(self)@, id, login@, password_hash@),
    {
        match self.user_index_by_id(id) {
            None => {
                proof {
                    assert(!spec_has_user_id(self@.users, id));
                }
                Err(Error::Unauthorized)
            },
            Some(i) => {
                proof {
                    let k = spec_user_idx_of_id(self@.users, id);
                    assert(spec_has_user_id(self@.users, id));
                    if k != i as int {
                        assert(false);
                    }
                }
                let guest = self.users[i].login.is_none() && self.users[i].password.is_none();
                if guest {
                    let ghost target = StoreView {
                        users: old(self)@.users.update(
                            i as int,
                            UserView { id, login: Some(login@), password: Some(password_hash@) },
                        ),
                        ..old(self)@
                    };
                    self.users[i] = User { id, login: Some(login), password: Some(password_hash) };
                    proof {
                        assert(self@ =~= target);
                        let s2 = self@;
                        let s1 = old(self)@;
                        assert forall|a: int, b: int|
                            0 <= a < b < s2.users.len() && (#[trigger] s2.users[a]).login
                                is Some implies (s2.users[a]).login != (
                        #[trigger] s2.users[b]).login by {
                            if a != i as int && b != i as int {
                                assert(s2.users[a] == s1.users[a]);
                                assert(s2.users[b] == s1.users[b]);
                            }
                        }
                    }
                    Ok(id)
                } else {
                    Err(Error::Unauthorized)
                }
            },
        }
    }

    /// Registers credentials: a taken login is `LoginInUse`; an anonymous
    /// caller becomes a fresh user with the login and a freshly computed
    /// password hash; an identified caller must name an existing guest,
    /// which is promoted in place, and an already-credentialed user is
    /// `Unauthorized`. On success the subject's identifier is returned.
    pub fn register(&mut self, new_user: UserCredentials, user_id: Option<u64>) -> (r: Result<
        u64,
        Error,
    >)
        requires
            old(self)@.wf(),
            old(self)@.next_user_id < u64::MAX,
            encode_utf8(new_user.password@).len() <= 0xFFFF_FFFF,
        ensures
            final(self)@.wf(),
            exists|h: Seq<char>|
                (r, final(self)@) == (#[trigger] spec_register(
                    old(self)@,
                    new_user.login@,
                    h,
                    user_id,
                )) && (r is Ok ==> password_matches(h, encode_utf8(new_user.password@))),
    {
        if self.user_index_by_login(&new_user.login).is_some() {
            proof {
                let ghost h = Seq::<char>::empty();
                assert((Err::<u64, Error>(Error::LoginInUse), self@) == spec_register(
                    old(self)@,
                    new_user.login@,
                    h,
                    user_id,
                ));
            }
            return Err(Error::LoginInUse);
        }
        proof {
            assert(!spec_has_login(self@.users, new_user.login@));
        }
        let hashed_password = hash(new_user.password.as_str().as_bytes());
        let ghost h = hashed_password@;
        match user_id {
            None => {
                let id = self.create_user(new_user.login, hashed_password);
                proof {
                    assert((Ok::<u64, Error>(id), self@) == spec_register(
                        old(self)@,
                        new_user.login@,
                        h,
                        user_id,
                    ));
                }
                Ok(id)
            },
            Some(uid) => {
                let r = self.update_user(uid, new_user.login, hashed_password);
                proof {
                    assert((r, self@) == spec_register(old(self)@, new_user.login@, h, user_id));
                }
                r
            },
        }
    }

    /// Creates a parking owned by the caller; `None` when the name is
    /// already taken, else the fresh parking's identifier.
    pub fn create_parking(&mut self, parking: CreateParkingRequest, user_id: Option<u64>) -> (r:
        Option<u64>)
        requires
            old(self)@.wf(),
            old(self)@.next_parking_id < u64::MAX,
            user_id is Some,
        ensures
            final(self)@.wf(),
            match user_id {
                Some(uid) => (r, final(self)@) == spec_create_parking(
                    old(self)@,
                    parking.name@,
                    parking.password@,
                    uid,
                ),
                None => true,
            },
    {
        let uid = match user_id {
            Some(uid) => uid,
            None => {
                proof {
                    assert(false);
                }
                return None;
            },
        };
        if self.parking_index_by_name(&parking.name).is_some() {
            return None;
        }
        proof {
            assert(!spec_has_parking_name(self@.parkings, parking.name@));
        }
        let id = self.next_parking_id;
        let ghost target = StoreView {
            parkings: old(self)@.parkings.push(
                ParkingView {
                    parking_id: id,
                    name: parking.name@,
                    password: parking.password@,
                    admin_id: uid,
                },
            ),
            next_parking_id: (id + 1) as u64,
            ..old(self)@
        };
        self.parkings.push(
            Parking { parking_id: id, name: parking.name, password: parking.password, admin_id: uid },
        );
        self.next_parking_id = id + 1;
        proof {
            assert(self@ =~= target);
            let s2 = self@;
            let s1 = old(self)@;
            assert forall|c: int|
                0 <= c < s2.consumers.len() implies spec_has_parking_id(
                s2.parkings,
                (#[trigger] s2.consumers[c]).parking_id,
            ) by {
                assert(spec_has_parking_id(s1.parkings, s1.consumers[c].parking_id));
                let w = choose|w: int|
                    0 <= w < s1.parkings.len() && (#[trigger] s1.parkings[w]).parking_id
                        == s1.consumers[c].parking_id;
                assert(s2.parkings[w].parking_id == s2.consumers[c].parking_id);
            }
        }
        Some(id)
    }

    /// Checks a login/password pair and mints a token for the matching
    /// user at instant `now`. An unknown login and a wrong password are
    /// the same undifferentiated `WrongCredentials`; a signing failure is
    /// surfaced as `TokenCreationFailed`, never masked as a credential
    /// error.
    pub fn log_in(&self, credentials: &UserCredentials, jwt_secret: &[u8], now: u64) -> (r: Result<
        String,
        Error,
    >)
        requires
            self@.wf(),
            now + TOKEN_LIFETIME_SECONDS <= u64::MAX,
        ensures
            match spec_log_in(self@, credentials.login@, credentials.password@) {
                Err(e) => r == Err::<String, Error>(e),
                Ok(uid) => match r {
                    Ok(t) => t@ == signed_token(
                        jwt_secret@,
                        uid,
                        (now + TOKEN_LIFETIME_SECONDS) as u64,
                    ) && token_claims(jwt_secret@, t@) == Some(
                        (uid, (now + TOKEN_LIFETIME_SECONDS) as u64),
                    ),
                    Err(e) => e == Error::TokenCreationFailed,
                },
            },
    {
        let i = match self.user_index_by_login(&credentials.login) {
            None => {
                proof {
                    assert(!spec_has_login(self@.users, credentials.login@));
                }
                return Err(Error::WrongCredentials);
            },
            Some(i) => i,
        };
        proof {
            let k = choose|k: int|
                0 <= k < self@.users.len() && (#[trigger] self@.users[k]).login == Some(
                    credentials.login@,
                );
            if k != i as int {
                assert(false);
            }
        }
        let user_password = match &self.users[i].password {
            Some(p) => p,
            None => {
                proof {
                    assert(self@.users[i as int].wf());
                    assert(false);
                }
                return Err(Error::WrongCredentials);
            },
        };
        if verify(user_password.as_str(), credentials.password.as_str().as_bytes()) {
            match issue_token(self.users[i].id, now, jwt_secret) {
                Ok(t) => Ok(t),
                Err(_) => Err(Error::TokenCreationFailed),
            }
        } else {
            Err(Error::WrongCredentials)
        }
    }

    /// A field-by-field copy of the parking at index `i`.
    fn clone_parking_at(&self, i: usize) -> (p: Parking)
        requires
            i < self@.parkings.len(),
        ensures
            p@ == self@.parkings[i as int],
    {
        let q = &self.parkings[i];
        Parking {
            parking_id: q.parking_id,
            name: q.name.clone(),
            password: q.password.clone(),
            admin_id: q.admin_id,
        }
    }

    /// Resolves a join request at instant `now`. No parking matches the
    /// name and secret: `WrongResource`. A match with an identified
    /// caller: a membership row is appended (duplicates allowed) and no
    /// token is returned. A match with an anonymous caller: a guest user
    /// is provisioned and a token minted for it before anything is
    /// inserted; if minting fails, `TokenCreationFailed` and nothing
    /// changes.
    pub fn join_parking(
        &mut self,
        body: JoinParkingRequest,
        user_id: Option<u64>,
        jwt_secret: &[u8],
        now: u64,
    ) -> (r: Result<JoinParkingResponse, Error>)
        requires
            old(self)@.wf(),
            old(self)@.next_user_id < u64::MAX,
            now + TOKEN_LIFETIME_SECONDS <= u64::MAX,
        ensures
            final(self)@.wf(),
            ({
                let (res, s2) = spec_join_parking(
                    old(self)@,
                    body.name@,
                    body.password@,
                    user_id,
                    jwt_secret@,
                    now,
                );
                match res {
                    Err(e) => r == Err::<JoinParkingResponse, Error>(e) && final(self)@ == old(self)@,
                    Ok(tp) => (r matches Ok(resp) && resp.token.deep_view() == tp.0
                        && resp.parking@ == tp.1 && final(self)@ == s2) || (user_id is None && r
                        == Err::<JoinParkingResponse, Error>(Error::TokenCreationFailed) && final(self)@ == old(self)@),
                }
            }),
    {
        let i = match self.parking_index_by_match(&body.name, &body.password) {
            None => {
                proof {
                    assert(!spec_has_parking_match(self@.parkings, body.name@, body.password@));
                }
                return Err(Error::WrongResource);
            },
            Some(i) => i,
        };
        proof {
            let k = choose|k: int|
                0 <= k < self@.parkings.len() && (#[trigger] self@.parkings[k]).name == body.name@
                    && self@.parkings[k].password == body.password@;
            if k != i as int {
                assert(false);
            }
        }
        let parking = self.clone_parking_at(i);
        match user_id {
            Some(uid) => {
                let ghost target = StoreView {
                    consumers: old(self)@.consumers.push(
                        ParkingConsumer { parking_id: parking.parking_id, consumer_id: uid },
                    ),
                    ..old(self)@
                };
                self.consumers.push(
                    ParkingConsumer { parking_id: parking.parking_id, consumer_id: uid },
                );
                proof {
                    assert(self@ =~= target);
                    assert forall|c: int| 0 <= c < self@.consumers.len() implies spec_has_parking_id(
                        self@.parkings,
                        (#[trigger] self@.consumers[c]).parking_id,
                    ) by {
                        if c < old(self)@.consumers.len() {
                            assert(old(self)@.consumers[c] == self@.consumers[c]);
                            assert(spec_has_parking_id(
                                old(self)@.parkings,
                                old(self)@.consumers[c].parking_id,
                            ));
                        } else {
                            assert(self@.consumers[c].parking_id
                                == self@.parkings[i as int].parking_id);
                        }
                    }
                }
                Ok(JoinParkingResponse { token: None, parking })
            },
            None => {
                let gid = self.next_user_id;
                let token = match issue_token(gid, now, jwt_secret) {
                    Ok(t) => t,
                    Err(_) => {
                        return Err(Error::TokenCreationFailed);
                    },
                };
                let ghost target = StoreView {
                    users: old(self)@.users.push(UserView { id: gid, login: None, password: None }),
                    consumers: old(self)@.consumers.push(
                        ParkingConsumer { parking_id: parking.parking_id, consumer_id: gid },
                    ),
                    next_user_id: (gid + 1) as u64,
                    ..old(self)@
                };
                self.users.push(User { id: gid, login: None, password: None });
                self.consumers.push(
                    ParkingConsumer { parking_id: parking.parking_id, consumer_id: gid },
                );
                self.next_user_id = gid + 1;
                proof {
                    assert(self@ =~= target);
                    assert forall|c: int| 0 <= c < self@.consumers.len() implies spec_has_parking_id(
                        self@.parkings,
                        (#[trigger] self@.consumers[c]).parking_id,
                    ) by {
                        if c < old(self)@.consumers.len() {
                            assert(old(self)@.consumers[c] == self@.consumers[c]);
                            assert(spec_has_parking_id(
                                old(self)@.parkings,
                                old(self)@.consumers[c].parking_id,
                            ));
                        } else {
                            assert(self@.consumers[c].parking_id
                                == self@.parkings[i as int].parking_id);
                        }
                    }
                }
                Ok(JoinParkingResponse { token: Some(token), parking })
            },
        }
    }

    /// The parkings the membership rows give `user_id`, emitted in
    /// reverse of the rows' storage order.
    pub fn get_consumed_parkings(&self, user_id: u64) -> (r: Vec<Parking>)
        requires
            self@.wf(),
        ensures
            r.deep_view() == spec_consumed(self@.parkings, self@.consumers, user_id).reverse(),
    {
        let mut acc: Vec<Parking> = Vec::new();
        let n = self.consumers.len();
        proof {
            assert(self@.consumers.take(0) =~= Seq::<ParkingConsumer>::empty());
            assert(acc.deep_view() =~= spec_consumed(self@.parkings, self@.consumers.take(0), user_id));
        }
        let mut i: usize = 0;
        while i < n
            invariant
                self@.wf(),
                n == self@.consumers.len(),
                i <= n,
                acc.deep_view() == spec_consumed(self@.parkings, self@.consumers.take(i as int), user_id),
            decreases n - i,
        {
            let ghost pre = self@.consumers.take(i as int);
            let ghost post = self@.consumers.take(i as int + 1);
            proof {
                assert(post.drop_last() =~= pre);
                assert(post.last() == self@.consumers[i as int]);
            }
            let row_uid = self.consumers[i].consumer_id;
            let row_pid = self.consumers[i].parking_id;
            if row_uid == user_id {
                match self.parking_index_by_id(row_pid) {
                    Some(j) => {
                        proof {
                            let k = choose|k: int|
                                0 <= k < self@.parkings.len() && (
                                #[trigger] self@.parkings[k]).parking_id == row_pid;
                            assert(spec_has_parking_id(self@.parkings, row_pid));
                            if k != j as int {
                                assert(false);
                            }
                        }
                        let p = self.clone_parking_at(j);
                        acc.push(p);
                        proof {
                            assert(acc.deep_view() =~= spec_consumed(self@.parkings, post, user_id));
                        }
                    },
                    None => {
                        proof {
                            assert(spec_has_parking_id(self@.parkings, row_pid));
                            assert(false);
                        }
                        return acc;
                    },
                }
            } else {
                proof {
                    assert(acc.deep_view() =~= spec_consumed(self@.parkings, post, user_id));
                }
            }
            i += 1;
        }
        proof {
            assert(self@.consumers.take(n as int) =~= self@.consumers);
        }
        let mut out: Vec<Parking> = Vec::new();
        let mut k: usize = acc.len();
        while k > 0
            invariant
                k <= acc.deep_view().len(),
                out.deep_view().len() == acc.deep_view().len() - k,
                forall|m: int|
                    0 <= m < out.deep_view().len() ==> out.deep_view()[m] == acc.deep_view()[acc.deep_view().len() - 1 - m],
                acc.deep_view() == spec_consumed(self@.parkings, self@.consumers, user_id),
            decreases k,
        {
            k -= 1;
            let q = &acc[k];
            let ghost prev = out.deep_view();
            out.push(
                Parking {
                    parking_id: q.parking_id,
                    name: q.name.clone(),
                    password: q.password.clone(),
                    admin_id: q.admin_id,
                },
            );
            proof {
                assert(out.deep_view() =~= prev.push(acc.deep_view()[k as int]));
            }
        }
        proof {
            assert(out.deep_view() =~= spec_consumed(self@.parkings, self@.consumers, user_id).reverse());
        }
        out
    }

    /// What the caller may see: the parkings it joined, in reverse of
    /// their membership rows' storage order, followed by the parkings it
    /// owns, in storage order, each with its secret stripped.
    pub fn list_parkings(&self, user_id: Option<u64>) -> (r: Vec<ParkingWithoutPassword>)
        requires
            self@.wf(),
            user_id is Some,
        ensures
            match user_id {
                Some(uid) => r.deep_view() == spec_list_parkings(self@, uid),
                None => true,
            },
    {
        let uid = match user_id {
            Some(u) => u,
            None => {
                proof {
                    assert(false);
                }
                return Vec::new();
            },
        };
        let consumed = self.get_consumed_parkings(uid);
        let ghost first = spec_strip_all(spec_consumed(self@.parkings, self@.consumers, uid).reverse());
        let mut out: Vec<ParkingWithoutPassword> = Vec::new();
        let cn = consumed.len();
        let mut i: usize = 0;
        while i < cn
            invariant
                cn == consumed.deep_view().len(),
                i <= cn,
                out.deep_view().len() == i,
                forall|m: int|
                    0 <= m < i ==> out.deep_view()[m] == consumed.deep_view()[m].without_password(),
            decreases cn - i,
        {
            let ghost prev = out.deep_view();
            out.push(consumed[i].to_parking_without_password());
            proof {
                assert(out.deep_view() =~= prev.push(
                    consumed.deep_view()[i as int].without_password(),
                ));
            }
            i += 1;
        }
        proof {
            assert(out.deep_view() =~= first);
        }
        let pn = self.parkings.len();
        proof {
            assert(self@.parkings.take(0) =~= Seq::<ParkingView>::empty());
            assert(out.deep_view() =~= first + spec_strip_all(spec_owned(self@.parkings.take(0), uid)));
        }
        let mut j: usize = 0;
        while j < pn
            invariant
                pn == self@.parkings.len(),
                j <= pn,
                out.deep_view() == first + spec_strip_all(spec_owned(self@.parkings.take(j as int), uid)),
            decreases pn - j,
        {
            let ghost pre = self@.parkings.take(j as int);
            let ghost post = self@.parkings.take(j as int + 1);
            proof {
                assert(post.drop_last() =~= pre);
                assert(post.last() == self@.parkings[j as int]);
            }
            if self.parkings[j].admin_id == uid {
                let ghost prev = out.deep_view();
                out.push(self.parkings[j].to_parking_without_password());
                proof {
                    assert(out.deep_view() =~= prev.push(
                        self@.parkings[j as int].without_password(),
                    ));
                    assert(spec_strip_all(spec_owned(post, uid)) =~= spec_strip_all(
                        spec_owned(pre, uid),
                    ).push(self@.parkings[j as int].without_password()));
                }
            }
            proof {
                assert(out.deep_view() =~= first + spec_strip_all(spec_owned(post, uid)));
            }
            j += 1;
        }
        proof {
            assert(self@.parkings.take(pn as int) =~= self@.parkings);
            assert(out.deep_view() =~= spec_list_parkings(self@, uid));
        }
        out
    }
}

} // verus!
