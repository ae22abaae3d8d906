use parking_auth::errors::Error;
use parking_auth::schema::CreateParkingRequest;
use parking_auth::schema::JoinParkingRequest;
use parking_auth::schema::UserCredentials;
use parking_auth::store::Store;
use parking_auth::token::validate_token;

const KEY: &[u8] = b"store signing secret";
const NOW: u64 = 1_000_000;

fn creds(login: &str, password: &str) -> UserCredentials {
    UserCredentials {
        login: login.to_string(),
        password: password.to_string(),
    }
}

fn parking_req(name: &str, password: &str) -> CreateParkingRequest {
    CreateParkingRequest {
        name: name.to_string(),
        password: password.to_string(),
    }
}

fn join_req(name: &str, password: &str) -> JoinParkingRequest {
    JoinParkingRequest {
        name: name.to_string(),
        password: password.to_string(),
    }
}

#[test]
fn owner_alone_reads_the_secret() {
    let mut store = Store::new();
    let owner = store.register(creds("owner", "pw"), None).unwrap();
    let pid = store.create_parking(parking_req("lot", "secret"), Some(owner)).unwrap();

    let read = store.get_parking_password(pid, Some(owner)).unwrap();
    assert_eq!(read.password, "secret");
    assert_eq!(read.name, "lot");
    assert_eq!(read.admin_id, owner);

    assert_eq!(
        store.get_parking_password(pid, Some(owner + 1)).unwrap_err(),
        Error::NoPermission
    );
    assert_eq!(
        store.get_parking_password(pid, None).unwrap_err(),
        Error::NoPermission
    );
    assert_eq!(
        store.get_parking_password(pid + 77, Some(owner)).unwrap_err(),
        Error::NoPermission
    );
}

#[test]
fn registering_a_login_twice_fails_then_login_succeeds() {
    let mut store = Store::new();
    let alice = store.register(creds("alice", "alice pw"), None).unwrap();
    assert_eq!(
        store.register(creds("alice", "other pw"), None).unwrap_err(),
        Error::LoginInUse
    );

    let token = store.log_in(&creds("alice", "alice pw"), KEY, NOW).unwrap();
    assert_eq!(validate_token(&token, KEY, NOW), Ok(alice));
}

#[test]
fn wrong_credentials_are_undifferentiated() {
    let mut store = Store::new();
    store.register(creds("carol", "right"), None).unwrap();
    assert_eq!(
        store.log_in(&creds("carol", "wrong"), KEY, NOW).unwrap_err(),
        Error::WrongCredentials
    );
    assert_eq!(
        store.log_in(&creds("nobody", "right"), KEY, NOW).unwrap_err(),
        Error::WrongCredentials
    );
}

#[test]
fn anonymous_join_provisions_a_guest_with_a_token() {
    let mut store = Store::new();
    let owner = store.register(creds("owner", "pw"), None).unwrap();
    store.create_parking(parking_req("lot", "shared"), Some(owner)).unwrap();

    let response = store.join_parking(join_req("lot", "shared"), None, KEY, NOW).unwrap();
    let token = response.token.expect("anonymous join must mint a token");
    let guest = validate_token(&token, KEY, NOW).unwrap();
    assert_ne!(guest, owner);

    let listed = store.list_parkings(Some(guest));
    assert_eq!(listed.len(), 1);
    assert_eq!(listed[0].name, "lot");
    assert_eq!(listed[0].admin_id, owner);
}

#[test]
fn identified_join_reuses_the_identity_and_omits_the_token() {
    let mut store = Store::new();
    let owner = store.register(creds("owner", "pw"), None).unwrap();
    let member = store.register(creds("member", "pw2"), None).unwrap();
    store.create_parking(parking_req("lot", "shared"), Some(owner)).unwrap();

    let response = store
        .join_parking(join_req("lot", "shared"), Some(member), KEY, NOW)
        .unwrap();
    assert!(response.token.is_none());
    assert_eq!(response.parking.name, "lot");

    let listed = store.list_parkings(Some(member));
    assert_eq!(listed.len(), 1);
    assert_eq!(listed[0].name, "lot");
}

#[test]
fn join_with_wrong_name_or_secret_is_rejected() {
    let mut store = Store::new();
    let owner = store.register(creds("owner", "pw"), None).unwrap();
    store.create_parking(parking_req("lot", "shared"), Some(owner)).unwrap();

    assert_eq!(
        store
            .join_parking(join_req("lot", "wrong"), None, KEY, NOW)
            .unwrap_err(),
        Error::WrongResource
    );
    assert_eq!(
        store
            .join_parking(join_req("other", "shared"), Some(owner), KEY, NOW)
            .unwrap_err(),
        Error::WrongResource
    );
}

#[test]
fn repeated_join_inserts_a_duplicate_membership() {
    let mut store = Store::new();
    let owner = store.register(creds("owner", "pw"), None).unwrap();
    let member = store.register(creds("member", "pw2"), None).unwrap();
    store.create_parking(parking_req("lot", "shared"), Some(owner)).unwrap();

    store.join_parking(join_req("lot", "shared"), Some(member), KEY, NOW).unwrap();
    store.join_parking(join_req("lot", "shared"), Some(member), KEY, NOW).unwrap();

    let listed = store.list_parkings(Some(member));
    assert_eq!(listed.len(), 2);
    assert_eq!(listed[0].name, "lot");
    assert_eq!(listed[1].name, "lot");
}

#[test]
fn guest_promotion_and_its_limits() {
    let mut store = Store::new();
    let owner = store.register(creds("owner", "pw"), None).unwrap();
    store.create_parking(parking_req("lot", "shared"), Some(owner)).unwrap();

    let response = store.join_parking(join_req("lot", "shared"), None, KEY, NOW).unwrap();
    let guest = validate_token(&response.token.unwrap(), KEY, NOW).unwrap();

    // A taken login refuses the promotion.
    assert_eq!(
        store.register(creds("owner", "guest pw"), Some(guest)).unwrap_err(),
        Error::LoginInUse
    );
    // The guest is promoted in place, keeping its identifier.
    assert_eq!(store.register(creds("guest", "guest pw"), Some(guest)), Ok(guest));
    let token = store.log_in(&creds("guest", "guest pw"), KEY, NOW).unwrap();
    assert_eq!(validate_token(&token, KEY, NOW), Ok(guest));

    // Promoting an already-credentialed user, or an unknown identity, fails.
    assert_eq!(
        store.register(creds("guest2", "pw"), Some(guest)).unwrap_err(),
        Error::Unauthorized
    );
    assert_eq!(
        store.register(creds("ghost", "pw"), Some(9999)).unwrap_err(),
        Error::Unauthorized
    );
}

#[test]
fn listing_shows_joined_in_reverse_then_owned_in_order() {
    let mut store = Store::new();
    let alice = store.register(creds("alice", "pw"), None).unwrap();
    let bob = store.register(creds("bob", "pw"), None).unwrap();

    store.create_parking(parking_req("A", "pa"), Some(alice)).unwrap();
    store.create_parking(parking_req("B", "pb"), Some(alice)).unwrap();
    store.create_parking(parking_req("X", "px"), Some(bob)).unwrap();
    store.create_parking(parking_req("Y", "py"), Some(bob)).unwrap();

    store.join_parking(join_req("X", "px"), Some(alice), KEY, NOW).unwrap();
    store.join_parking(join_req("Y", "py"), Some(alice), KEY, NOW).unwrap();

    let names: Vec<String> = store
        .list_parkings(Some(alice))
        .into_iter()
        .map(|p| p.name)
        .collect();
    assert_eq!(names, vec!["Y", "X", "A", "B"]);
}

#[test]
fn listing_strips_the_secret_field() {
    let mut store = Store::new();
    let owner = store.register(creds("owner", "pw"), None).unwrap();
    store.create_parking(parking_req("lot", "secret"), Some(owner)).unwrap();
    let listed = store.list_parkings(Some(owner));
    assert_eq!(listed.len(), 1);
    assert_eq!(listed[0].name, "lot");
    assert_eq!(listed[0].admin_id, owner);
}

#[test]
fn create_parking_refuses_a_taken_name() {
    let mut store = Store::new();
    let owner = store.register(creds("owner", "pw"), None).unwrap();
    assert!(store.create_parking(parking_req("lot", "a"), Some(owner)).is_some());
    assert!(store.create_parking(parking_req("lot", "b"), Some(owner)).is_none());
}

#[test]
fn find_user_by_login_sees_registered_users_only() {
    let mut store = Store::new();
    let alice = store.register(creds("alice", "pw"), None).unwrap();
    let found = store.find_user_by_login(&"alice".to_string()).unwrap();
    assert_eq!(found.id, alice);
    assert_eq!(found.login.as_deref(), Some("alice"));
    assert!(store.find_user_by_login(&"bob".to_string()).is_none());
}

#[test]
fn stored_password_is_hashed_not_cleartext() {
    let mut store = Store::new();
    store.register(creds("alice", "plain"), None).unwrap();
    let user = store.find_user_by_login(&"alice".to_string()).unwrap();
    let stored = user.password.unwrap();
    assert_ne!(stored, "plain");
    assert!(parking_auth::security::verify(&stored, b"plain"));
}
