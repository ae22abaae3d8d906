//! The request and response shapes the handlers exchange with their
//! callers.

use vstd::prelude::*;

use crate::models::Parking;

verus! {

/// A login/password pair, as sent to registration and login.
#[derive(Clone, Debug)]
pub struct UserCredentials {
    pub login: String,
    pub password: String,
}

/// A request to create a parking with a name and a join secret.
#[derive(Clone, Debug)]
pub struct CreateParkingRequest {
    pub name: String,
    pub password: String,
}

/// A request to join the parking matching a name and a join secret.
#[derive(Clone, Debug)]
pub struct JoinParkingRequest {
    pub name: String,
    pub password: String,
}

/// A successful login: the bearer token minted for the subject.
#[derive(Clone, Debug)]
pub struct LoginResponse {
    pub token: String,
}

/// A successful join: the matched parking and, for a caller who joined
/// anonymously and was provisioned a guest account, the fresh token
/// under which that guest can come back.
#[derive(Clone, Debug)]
pub struct JoinParkingResponse {
    pub token: Option<String>,
    pub parking: Parking,
}

} // verus!
