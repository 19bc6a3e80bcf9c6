use login_rpc::{get_users, hash_password, login, DeniedReason, LoginAction, Role, User, UserStore};

const PASSWORD_DIGEST: &str = "5E884898DA28047151D0E56F8DC6292773603D0D6AABBDD62A11EF721D1542D8";

#[test]
fn digest_of_password_is_upper_case_sha256() {
    assert_eq!(hash_password("password"), PASSWORD_DIGEST);
    assert_eq!(
        hash_password(""),
        "E3B0C44298FC1C149AFBF4C8996FB92427AE41E4649B934CA495991B7852B855"
    );
    assert_eq!(hash_password("password").len(), 64);
}

#[test]
fn new_user_stores_the_digest() {
    let u = User::new("herbert", "password", LoginAction::Accept(Role::Admin));
    assert_eq!(u.username, "herbert");
    assert_eq!(u.password, PASSWORD_DIGEST);
    assert_eq!(u.action, LoginAction::Accept(Role::Admin));
}

#[test]
fn built_in_store_scenario() {
    let users = get_users();
    assert_eq!(login(&users, "Herbert", "password"), Some(LoginAction::Accept(Role::Admin)));
    assert_eq!(login(&users, "bob", "password"), Some(LoginAction::Accept(Role::User)));
    assert_eq!(
        login(&users, "fred", "password"),
        Some(LoginAction::Denied(DeniedReason::PasswordExpired))
    );
    assert_eq!(login(&users, "bob", "wrong"), None);
    assert_eq!(login(&users, "kevin", "anything"), None);
}

#[test]
fn stored_action_comes_back_exactly() {
    let mut users = UserStore::new();
    let locked = LoginAction::Denied(DeniedReason::AccountLocked { reason: "audit".to_string() });
    users.insert(User::new("kent", "secret", locked.clone()));
    users.insert(User::new("amy", "pw", LoginAction::Accept(Role::Limited)));
    assert_eq!(login(&users, "kent", "secret"), Some(locked));
    assert_eq!(login(&users, "amy", "pw"), Some(LoginAction::Accept(Role::Limited)));
}

#[test]
fn unknown_user_gets_nothing() {
    let users = get_users();
    assert_eq!(login(&users, "nobody", "password"), None);
    assert_eq!(login(&users, "", ""), None);
    assert_eq!(login(&UserStore::new(), "herbert", "password"), None);
}

#[test]
fn wrong_password_looks_like_unknown_user() {
    let users = get_users();
    assert_eq!(login(&users, "herbert", "Password"), login(&users, "nobody", "Password"));
    assert_eq!(login(&users, "herbert", ""), None);
}

#[test]
fn username_is_trimmed_and_lower_cased() {
    let users = get_users();
    assert_eq!(login(&users, "  HERBERT\n", "password"), login(&users, "herbert", "password"));
    assert_eq!(login(&users, "  HERBERT\n", "password"), Some(LoginAction::Accept(Role::Admin)));
}

#[test]
fn password_is_trimmed_before_hashing() {
    let users = get_users();
    assert_eq!(login(&users, "bob", "password\n"), Some(LoginAction::Accept(Role::User)));
}

#[test]
fn later_record_replaces_earlier() {
    let mut users = UserStore::new();
    users.insert(User::new("sam", "old", LoginAction::Accept(Role::User)));
    users.insert(User::new("sam", "new", LoginAction::Accept(Role::Admin)));
    assert_eq!(login(&users, "sam", "old"), None);
    assert_eq!(login(&users, "sam", "new"), Some(LoginAction::Accept(Role::Admin)));
}

#[test]
fn insert_files_records_under_normalized_names() {
    let mut users = UserStore::new();
    users.insert(User::new("  Herbert\t", "password", LoginAction::Accept(Role::Admin)));
    assert_eq!(login(&users, "herbert", "password"), Some(LoginAction::Accept(Role::Admin)));
    assert_eq!(login(&users, "HERBERT", "password"), Some(LoginAction::Accept(Role::Admin)));
    users.insert(User::new("HERBERT", "other", LoginAction::Accept(Role::User)));
    assert_eq!(login(&users, "herbert", "password"), None);
    assert_eq!(login(&users, "herbert", "other"), Some(LoginAction::Accept(Role::User)));
}

#[test]
fn unicode_whitespace_is_trimmed() {
    let users = get_users();
    assert_eq!(
        login(&users, "\u{3000}Herbert\u{a0}\u{2028}", "\u{205f}password\u{85}"),
        Some(LoginAction::Accept(Role::Admin))
    );
    assert_eq!(login(&users, "her bert", "password"), None);
}
