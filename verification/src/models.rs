//! The domain entities the membership authorizer decides over: users
//! (registered or guest), parkings, and the membership relation between
//! them, together with their mathematical views.

use vstd::prelude::*;

verus! {

/// A user row. A user whose login and password are both absent is a
/// *guest*: provisioned automatically during an anonymous join, able to
/// hold membership but unable to log in until credentials are set.
#[derive(Clone, Debug)]
pub struct User {
    pub id: u64,
    pub login: Option<String>,
    pub password: Option<String>,
}

/// The mathematical image of a `User`.
pub struct UserView {
    pub id: u64,
    pub login: Option<Seq<char>>,
    pub password: Option<Seq<char>>,
}

impl UserView {
    /// A guest: both credentials absent.
    pub open spec fn is_guest(self) -> bool {
        self.login is None && self.password is None
    }

    /// A non-guest user always has login and password hash together.
    pub open spec fn wf(self) -> bool {
        self.login is Some <==> self.password is Some
    }
}

impl View for User {
    type V = UserView;

    open spec fn view(&self) -> UserView {
        UserView { id: self.id, login: self.login.deep_view(), password: self.password.deep_view() }
    }
}

impl DeepView for User {
    type V = UserView;

    open spec fn deep_view(&self) -> UserView {
        self.view()
    }
}

/// A shared resource: a parking with a name, a join secret, and an owner.
/// The secret is stored and compared as given (join matches it by
/// equality), distinct from user password hashing.
#[derive(Clone, Debug)]
pub struct Parking {
    pub parking_id: u64,
    pub name: String,
    pub password: String,
    pub admin_id: u64,
}

/// The mathematical image of a `Parking`.
pub struct ParkingView {
    pub parking_id: u64,
    pub name: Seq<char>,
    pub password: Seq<char>,
    pub admin_id: u64,
}

impl ParkingView {
    /// The caller-visible image of this parking with its secret stripped.
    pub open spec fn without_password(self) -> ParkingWithoutPasswordView {
        ParkingWithoutPasswordView { id: self.parking_id, name: self.name, admin_id: self.admin_id }
    }
}

impl View for Parking {
    type V = ParkingView;

    open spec fn view(&self) -> ParkingView {
        ParkingView {
            parking_id: self.parking_id,
            name: self.name@,
            password: self.password@,
            admin_id: self.admin_id,
        }
    }
}

impl DeepView for Parking {
    type V = ParkingView;

    open spec fn deep_view(&self) -> ParkingView {
        self.view()
    }
}

impl Parking {
    /// This parking as listings return it: identifier, name and owner,
    /// with the secret field stripped.
    pub fn to_parking_without_password(&self) -> (r: ParkingWithoutPassword)
        ensures
            r@ == self@.without_password(),
    {
        ParkingWithoutPassword {
            id: self.parking_id,
            name: self.name.clone(),
            admin_id: self.admin_id,
        }
    }
}

/// A parking as it appears in listings: no password field.
#[derive(Clone, Debug)]
pub struct ParkingWithoutPassword {
    pub id: u64,
    pub name: String,
    pub admin_id: u64,
}

/// The mathematical image of a `ParkingWithoutPassword`.
pub struct ParkingWithoutPasswordView {
    pub id: u64,
    pub name: Seq<char>,
    pub admin_id: u64,
}

impl View for ParkingWithoutPassword {
    type V = ParkingWithoutPasswordView;

    open spec fn view(&self) -> ParkingWithoutPasswordView {
        ParkingWithoutPasswordView { id: self.id, name: self.name@, admin_id: self.admin_id }
    }
}

impl DeepView for ParkingWithoutPassword {
    type V = ParkingWithoutPasswordView;

    open spec fn deep_view(&self) -> ParkingWithoutPasswordView {
        self.view()
    }
}

/// One membership row: `consumer_id` has joined `parking_id`. Rows are
/// never de-duplicated; re-joining inserts a second identical row.
#[derive(Clone, Copy, Debug, PartialEq, Eq, Structural)]
pub struct ParkingConsumer {
    pub parking_id: u64,
    pub consumer_id: u64,
}

impl DeepView for ParkingConsumer {
    type V = ParkingConsumer;

    open spec fn deep_view(&self) -> ParkingConsumer {
        *self
    }
}

} // verus!
