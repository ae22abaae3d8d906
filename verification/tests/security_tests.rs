use parking_auth::security::hash;
use parking_auth::security::verify;

#[test]
fn hash_verify_round_trip() {
    let encoded = hash(b"correct horse battery staple");
    assert!(verify(&encoded, b"correct horse battery staple"));
}

#[test]
fn verify_rejects_wrong_password() {
    let encoded = hash(b"first password");
    assert!(!verify(&encoded, b"second password"));
}

#[test]
fn two_hashes_differ_but_both_verify() {
    let first = hash(b"same password");
    let second = hash(b"same password");
    assert_ne!(first, second);
    assert!(verify(&first, b"same password"));
    assert!(verify(&second, b"same password"));
}

#[test]
fn verify_fails_closed_on_malformed_encoding() {
    assert!(!verify("not an encoded hash", b"anything"));
    assert!(!verify("", b"anything"));
}

#[test]
fn hash_of_empty_password_verifies() {
    let encoded = hash(b"");
    assert!(verify(&encoded, b""));
    assert!(!verify(&encoded, b"nonempty"));
}
