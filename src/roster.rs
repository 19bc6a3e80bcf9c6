//! A fixed roster that decides by username alone, without passwords.

use vstd::prelude::*;
use crate::action::{DeniedReason, DeniedReasonView, LoginAction, LoginActionView, Role};
use crate::text::{normalize_username, normalized};
use crate::wire::response_view;

verus! {

/// The roster's decision for a normalized username: `herbert` is an
/// administrator, `bob` a user, `fred`'s password has expired, `kevin`'s
/// account is locked, and nobody else is known.
pub open spec fn roster_decision(name: Seq<char>) -> Option<LoginActionView> {
    if name == "herbert"@ {
        Some(LoginActionView::Accept(Role::Admin))
    } else if name == "bob"@ {
        Some(LoginActionView::Accept(Role::User))
    } else if name == "fred"@ {
        Some(LoginActionView::Denied(DeniedReasonView::PasswordExpired))
    } else if name == "kevin"@ {
        Some(
            LoginActionView::Denied(
                DeniedReasonView::AccountLocked { reason: "Call Human Resources!"@ },
            ),
        )
    } else {
        None
    }
}

/// Looks a user up in the roster by name, after trimming and lower-casing it.
pub fn login(name: &str) -> (r: Option<LoginAction>)
    ensures
        response_view(r) == roster_decision(normalized(name@)),
{
    let n = normalize_username(name);
    if n == "herbert".to_owned() {
        Some(LoginAction::Accept(Role::Admin))
    } else if n == "bob".to_owned() {
        Some(LoginAction::Accept(Role::User))
    } else if n == "fred".to_owned() {
        Some(LoginAction::Denied(DeniedReason::PasswordExpired))
    } else if n == "kevin".to_owned() {
        Some(
            LoginAction::Denied(
                DeniedReason::AccountLocked { reason: "Call Human Resources!".to_owned() },
            ),
        )
    } else {
        None
    }
}

/// The roster's decision for every normalized username: a name that the
/// roster does not know is refused as not on the list.
pub open spec fn roster_verdict(name: Seq<char>) -> LoginActionView {
    match roster_decision(name) {
        Some(action) => action,
        None => LoginActionView::Denied(
            DeniedReasonView::AccountLocked { reason: "Not on the list"@ },
        ),
    }
}

/// Decides a login by name alone, refusing every name the roster does not
/// know.
pub fn decide(name: &str) -> (r: LoginAction)
    ensures
        r@ == roster_verdict(normalized(name@)),
{
    match login(name) {
        Some(action) => action,
        None => LoginAction::Denied(
            DeniedReason::AccountLocked { reason: "Not on the list".to_owned() },
        ),
    }
}

} // verus!
