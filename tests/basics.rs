use std::cell::Cell;

use login_rpc::roster;
use login_rpc::text::normalize_username;
use login_rpc::{greet_user, is_login_allowed, DeniedReason, LoginAction, Role};

#[test]
fn test_greet_user() {
    assert_eq!("Hello Herbert", greet_user("Herbert"));
}

#[test]
fn lib_test_greet_user() {
    assert_eq!("Hello Herbert", greet_user("Herbert"));
}

#[test]
fn test_case_and_trim() {
    assert!(is_login_allowed("HeRbErT"));
    assert!(is_login_allowed("  herbert\r\n"));
}

#[test]
fn lib_test_case_and_trim() {
    assert!(is_login_allowed("HeRbErT"));
    assert!(is_login_allowed("  herbert\r\n"));
}

#[test]
fn test_login_fail() {
    assert!(!is_login_allowed("bob"));
}

#[test]
fn lib_test_login_fail() {
    assert!(!is_login_allowed("bob"));
}

#[test]
fn test_enums() {
    assert_eq!(roster::login("Herbert"), Some(LoginAction::Accept(Role::Admin)));
    assert_eq!(roster::login("bob"), Some(LoginAction::Accept(Role::User)));
    assert_eq!(roster::login("fred"), Some(LoginAction::Denied(DeniedReason::PasswordExpired)));
    assert_eq!(roster::login("anonymous"), None);
    if let Some(LoginAction::Denied(DeniedReason::AccountLocked { reason: _ })) = roster::login("kevin") {
        // All is well
    } else {
        panic!("Failed to read kevin");
    }
}

#[test]
fn greet_user_keeps_the_name_as_given() {
    assert_eq!(greet_user(""), "Hello ");
    assert_eq!(greet_user("  Zoë "), "Hello   Zoë ");
}

#[test]
fn roster_reason_for_kevin() {
    assert_eq!(
        roster::login("  KEVIN\n"),
        Some(LoginAction::Denied(DeniedReason::AccountLocked {
            reason: "Call Human Resources!".to_string()
        }))
    );
}

#[test]
fn equality_tells_reasons_apart() {
    let a = DeniedReason::AccountLocked { reason: "a".to_string() };
    let b = DeniedReason::AccountLocked { reason: "b".to_string() };
    assert_ne!(a, b);
    assert_ne!(a, DeniedReason::PasswordExpired);
    assert_eq!(a.clone(), a);
    assert_ne!(LoginAction::Accept(Role::Admin), LoginAction::Accept(Role::Limited));
    assert_ne!(LoginAction::Accept(Role::Admin), LoginAction::Denied(DeniedReason::PasswordExpired));
}

#[test]
fn do_login_calls_the_matching_callback() {
    let accepted = Cell::new(None);
    let denied = Cell::new(false);
    LoginAction::Accept(Role::Limited).do_login(|r| accepted.set(Some(*r)), |_| denied.set(true));
    assert_eq!(accepted.get(), Some(Role::Limited));
    assert!(!denied.get());
    accepted.set(None);
    LoginAction::Denied(DeniedReason::PasswordExpired).do_login(|r| accepted.set(Some(*r)), |_| denied.set(true));
    assert_eq!(accepted.get(), None);
    assert!(denied.get());
}

#[test]
fn lib_test_enums() {
    assert_eq!(roster::decide("Herbert"), LoginAction::Accept(Role::Admin));
    assert_eq!(roster::decide("bob"), LoginAction::Accept(Role::User));
    assert_eq!(roster::decide("fred"), LoginAction::Denied(DeniedReason::PasswordExpired));
    assert_eq!(roster::decide("anonymous"), LoginAction::Denied(DeniedReason::AccountLocked { reason: "Not on the list".to_string() }));
}

#[test]
fn normalization_twice_is_normalization_once() {
    for name in ["  HERBERT\n", "Bob", "\u{2003}MiXeD Case\t", "", "   "] {
        let once = normalize_username(name);
        assert_eq!(normalize_username(&once), once);
    }
    assert_eq!(normalize_username("  HERBERT\n"), "herbert");
}
