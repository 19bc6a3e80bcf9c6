//! Credential records and the store that answers login attempts.
//!
//! A store maps a username to its record. A login attempt names a user and
//! gives a password; the store answers with the user's decision when the
//! user exists and the password's digest matches, and with nothing
//! otherwise, so that an unknown user and a wrong password look alike.

use vstd::prelude::*;
use vstd::utf8::is_ascii_chars;
use crate::action::{DeniedReason, LoginAction, Role};
use crate::digest::{hash_password, password_digest};
use crate::text::{law_normalization_idempotent, lemma_normal_name, normalize_username, normalized, trimmed, trim_str};

verus! {

/// A credential record: the username, the digest of the password, and the
/// decision that a successful login yields.
#[derive(Debug)]
pub struct User {
    pub username: String,
    pub password: String,
    pub action: LoginAction,
}

impl User {
    /// A record for `username` whose password is stored as its digest.
    pub fn new(username: &str, password: &str, action: LoginAction) -> (r: User)
        ensures
            r.username@ == username@,
            r.password@ == password_digest(password@),
            r.action == action,
    {
        User { username: username.to_owned(), password: hash_password(password), action }
    }
}

impl Clone for User {
    fn clone(&self) -> (r: Self)
        ensures
            r == *self,
    {
        User {
            username: self.username.clone(),
            password: self.password.clone(),
            action: self.action.clone(),
        }
    }
}

/// The map that a sequence of records stands for: each record is filed under
/// its username, and a later record replaces an earlier one of the same name.
pub open spec fn map_of(users: Seq<User>) -> Map<Seq<char>, User>
    decreases users.len(),
{
    if users.len() == 0 {
        Map::empty()
    } else {
        map_of(users.drop_last()).insert(users.last().username@, users.last())
    }
}

/// What a login attempt yields against the records `store`: the stored
/// decision when the normalized username is present and the digest of the
/// trimmed password equals the stored digest, and nothing otherwise.
pub open spec fn lookup(
    store: Map<Seq<char>, User>,
    username: Seq<char>,
    password: Seq<char>,
) -> Option<LoginAction> {
    let name = normalized(username);
    if store.contains_key(name) && store[name].password@ == password_digest(trimmed(password)) {
        Some(store[name].action)
    } else {
        None
    }
}

/// The credential store: records keyed by username.
pub struct UserStore {
    users: Vec<User>,
}

impl View for UserStore {
    type V = Map<Seq<char>, User>;

    closed spec fn view(&self) -> Map<Seq<char>, User> {
        map_of(self.users@)
    }
}

/// Every record of the map is filed under its own username.
pub open spec fn keyed_by_username(m: Map<Seq<char>, User>) -> bool {
    forall|k: Seq<char>| m.contains_key(k) ==> (#[trigger] m[k]).username@ == k
}

/// Every key of the map is the normalized form of some name.
pub open spec fn keys_normalized(m: Map<Seq<char>, User>) -> bool {
    forall|k: Seq<char>| #[trigger] m.contains_key(k) ==> exists|s: Seq<char>| normalized(s) == k
}

proof fn lemma_map_of_keys(users: Seq<User>)
    ensures
        keyed_by_username(map_of(users)),
        forall|k: Seq<char>|
            #[trigger] map_of(users).contains_key(k) ==> exists|i: int|
                0 <= i < users.len() && users[i].username@ == k,
    decreases users.len(),
{
    if users.len() > 0 {
        lemma_map_of_keys(users.drop_last());
        assert forall|k: Seq<char>| #[trigger] map_of(users).contains_key(k) implies exists|i: int|
            0 <= i < users.len() && users[i].username@ == k by {
            if k != users.last().username@ {
                let i = choose|i: int|
                    0 <= i < users.drop_last().len() && users.drop_last()[i].username@ == k;
                assert(users[i] == users.drop_last()[i]);
            } else {
                assert(users[users.len() - 1] == users.last());
            }
        }
    }
}

impl UserStore {
    /// Whether every stored username is the normalized form of a name.
    pub closed spec fn well_formed(&self) -> bool {
        forall|i: int|
            0 <= i < self.users@.len() ==> exists|s: Seq<char>|
                normalized(s) == #[trigger] self.users@[i].username@
    }

    /// Every record is filed under its own username, and every username is
    /// the normalized form of a name.
    pub proof fn lemma_keys(&self)
        requires
            self.well_formed(),
        ensures
            keyed_by_username(self@),
            keys_normalized(self@),
    {
        lemma_map_of_keys(self.users@);
        assert forall|k: Seq<char>| #[trigger] self@.contains_key(k) implies exists|s: Seq<char>|
            normalized(s) == k by {
            let i = choose|i: int|
                0 <= i < self.users@.len() && self.users@[i].username@ == k;
            assert(exists|s: Seq<char>| normalized(s) == self.users@[i].username@);
        }
    }

    /// An empty store.
    pub fn new() -> (r: UserStore)
        ensures
            r@ == Map::<Seq<char>, User>::empty(),
            r.well_formed(),
    {
        UserStore { users: Vec::new() }
    }

    /// Files a record under its normalized username, replacing any record of
    /// that name. The stored record carries the normalized username, and the
    /// given digest and decision.
    pub fn insert(&mut self, user: User)
        requires
            old(self).well_formed(),
        ensures
            final(self).well_formed(),
            final(self)@.dom() == old(self)@.dom().insert(normalized(user.username@)),
            final(self)@.remove(normalized(user.username@)) == old(self)@.remove(
                normalized(user.username@),
            ),
            forall|k: Seq<char>|
                k != normalized(user.username@) && #[trigger] old(self)@.contains_key(k)
                    ==> final(self)@[k] == old(self)@[k],
            final(self)@[normalized(user.username@)].username@ == normalized(user.username@),
            final(self)@[normalized(user.username@)].password == user.password,
            final(self)@[normalized(user.username@)].action == user.action,
    {
        let ghost before = self.users@;
        let ghost name = user.username@;
        let username = normalize_username(user.username.as_str());
        let record = User { username, password: user.password, action: user.action };
        self.users.push(record);
        proof {
            assert(self.users@.drop_last() =~= before);
            assert(self@ == map_of(before).insert(normalized(name), self.users@.last()));
            assert(self@.remove(normalized(name)) =~= map_of(before).remove(normalized(name)));
            assert(self@ == old(self)@.insert(normalized(name), self.users@.last()));
            assert forall|i: int| 0 <= i < self.users@.len() implies exists|s: Seq<char>|
                normalized(s) == #[trigger] self.users@[i].username@ by {
                if i < before.len() {
                    assert(self.users@[i] == before[i]);
                    assert(exists|s: Seq<char>| normalized(s) == before[i].username@);
                } else {
                    assert(normalized(name) == self.users@[i].username@);
                }
            }
        }
    }

    /// The position of the record that the store's view holds for `name`.
    fn find(&self, name: &String) -> (r: Option<usize>)
        ensures
            r is None <==> !self@.contains_key(name@),
            r matches Some(i) ==> i < self.users@.len() && self@[name@] == self.users@[i as int],
    {
        let mut i: usize = self.users.len();
        proof {
            assert(self.users@.subrange(0, i as int) =~= self.users@);
        }
        while i > 0
            invariant
                i <= self.users@.len(),
                self@.contains_key(name@) == map_of(self.users@.subrange(0, i as int)).contains_key(
                    name@,
                ),
                self@.contains_key(name@) ==> self@[name@] == map_of(
                    self.users@.subrange(0, i as int),
                )[name@],
            decreases i,
        {
            let ghost prefix = self.users@.subrange(0, i as int);
            proof {
                assert(prefix.drop_last() =~= self.users@.subrange(0, i - 1));
            }
            if self.users[i - 1].username == *name {
                return Some(i - 1);
            }
            i = i - 1;
        }
        None
    }
}

/// The built-in store: `herbert` is an administrator, `bob` a user, and
/// `fred`'s password has expired; each has the password `password`.
pub fn get_users() -> (r: UserStore)
    ensures
        r.well_formed(),
        r@.dom() == set!["herbert"@, "bob"@, "fred"@],
        keyed_by_username(r@),
        r@["herbert"@].password@ == password_digest("password"@),
        r@["bob"@].password@ == password_digest("password"@),
        r@["fred"@].password@ == password_digest("password"@),
        r@["herbert"@].action@ == LoginAction::Accept(Role::Admin)@,
        r@["bob"@].action@ == LoginAction::Accept(Role::User)@,
        r@["fred"@].action@ == LoginAction::Denied(DeniedReason::PasswordExpired)@,
{
    let mut store = UserStore::new();
    store.insert(User::new("herbert", "password", LoginAction::Accept(Role::Admin)));
    store.insert(User::new("bob", "password", LoginAction::Accept(Role::User)));
    store.insert(User::new("fred", "password", LoginAction::Denied(DeniedReason::PasswordExpired)));
    proof {
        reveal_strlit("herbert");
        reveal_strlit("bob");
        reveal_strlit("fred");
        lemma_normal_name("herbert"@);
        lemma_normal_name("bob"@);
        lemma_normal_name("fred"@);
        assert("herbert"@.len() != "bob"@.len() && "herbert"@.len() != "fred"@.len());
        assert("bob"@.len() != "fred"@.len());
        assert(store@.dom() =~= set!["herbert"@, "bob"@, "fred"@]);
        store.lemma_keys();
    }
    store
}

/// Checks a login attempt against the store.
pub fn login(users: &UserStore, username: &str, password: &str) -> (r: Option<LoginAction>)
    ensures
        r == lookup(users@, username@, password@),
{
    let name = normalize_username(username);
    let digest = hash_password(trim_str(password));
    match users.find(&name) {
        Some(i) => {
            let user = &users.users[i];
            if user.password == digest {
                Some(user.action.clone())
            } else {
                None
            }
        },
        None => None,
    }
}

/// A login with a known username whose password digest matches yields
/// exactly the stored decision.
pub proof fn law_matching_password_yields_stored_action(
    store: Map<Seq<char>, User>,
    username: Seq<char>,
    password: Seq<char>,
)
    requires
        store.contains_key(normalized(username)),
        store[normalized(username)].password@ == password_digest(trimmed(password)),
    ensures
        lookup(store, username, password) == Some(store[normalized(username)].action),
{
}

/// A login with a username that the store does not hold yields nothing,
/// whatever the password.
pub proof fn law_unknown_user_yields_nothing(
    store: Map<Seq<char>, User>,
    username: Seq<char>,
    password: Seq<char>,
)
    requires
        !store.contains_key(normalized(username)),
    ensures
        lookup(store, username, password) is None,
{
}

/// A login with a known username and a wrong password yields nothing, just
/// as an unknown username does.
pub proof fn law_wrong_password_yields_nothing(
    store: Map<Seq<char>, User>,
    username: Seq<char>,
    password: Seq<char>,
)
    requires
        store.contains_key(normalized(username)),
        store[normalized(username)].password@ != password_digest(trimmed(password)),
    ensures
        lookup(store, username, password) is None,
{
}

/// Two usernames with the same normalized form get the same answer, so
/// spelling a name with other case or surrounding whitespace changes nothing.
pub proof fn law_normalized_names_agree(
    store: Map<Seq<char>, User>,
    username: Seq<char>,
    other: Seq<char>,
    password: Seq<char>,
)
    requires
        normalized(username) == normalized(other),
    ensures
        lookup(store, username, password) == lookup(store, other, password),
{
}

/// For an ASCII username, logging in under its normalized form gives the
/// same answer as logging in under the name as typed.
pub proof fn law_login_with_normalized_name(
    store: Map<Seq<char>, User>,
    username: Seq<char>,
    password: Seq<char>,
)
    requires
        is_ascii_chars(username),
    ensures
        lookup(store, normalized(username), password) == lookup(store, username, password),
{
    law_normalization_idempotent(username);
}

} // verus!
