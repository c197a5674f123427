use backend::auth::AuthTokenGuard;
use backend::crypto::{
    asymmetric_encryption_test, password_hashing_test, rsa_round_trip, symmetric_encryption_test,
};
use backend::site::{gethtml, index, not_authorized_target, wants_self_test, RealTimeMessenger};

#[test]
fn fixed_pages() {
    assert_eq!(backend::site::test(AuthTokenGuard(1)), "test");
    assert_eq!(gethtml(), "<h1>bruh</h1>");
    assert_eq!(index(), "<h1>fantasypvp.uk</h1>");
    assert_eq!(not_authorized_target(), "/login");
    assert_eq!(RealTimeMessenger.name(), "Database Polling for messenger");
}

#[test]
fn self_test_flag() {
    let args = vec![String::from("backend"), String::from("runtest")];
    assert!(wants_self_test(&args));
    assert!(!wants_self_test(&vec![String::from("backend"), String::from("runtests")]));
    assert!(!wants_self_test(&vec![]));
}

#[test]
fn symmetric_self_check_passes() {
    assert!(symmetric_encryption_test());
}

#[test]
fn password_self_check_passes() {
    assert!(password_hashing_test());
}

#[test]
fn rsa_round_trip_small_key() {
    assert_eq!(rsa_round_trip(512, b"hello world"), Some(true));
    // 512 bits leave room for 64 - 11 = 53 bytes.
    assert_eq!(rsa_round_trip(512, &[7u8; 53]), Some(true));
    assert_eq!(rsa_round_trip(512, &[7u8; 54]), None);
}

#[test]
fn asymmetric_self_check_passes() {
    assert!(asymmetric_encryption_test());
}
