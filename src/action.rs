//! The authorization decision model: roles, reasons for denial, and the
//! decision itself.

use vstd::prelude::*;

verus! {

/// An access level granted to an accepted login.
#[derive(PartialEq, Eq, Structural, Clone, Copy, Debug)]
pub enum Role {
    Admin,
    User,
    Limited,
}

/// Why a login was refused.
#[derive(Debug)]
pub enum DeniedReason {
    PasswordExpired,
    AccountLocked { reason: String },
}

/// The outcome of a successful credential check.
#[derive(Debug)]
pub enum LoginAction {
    Accept(Role),
    Denied(DeniedReason),
}

/// The mathematical value of a [`DeniedReason`].
pub enum DeniedReasonView {
    PasswordExpired,
    AccountLocked { reason: Seq<char> },
}

/// The mathematical value of a [`LoginAction`].
pub enum LoginActionView {
    Accept(Role),
    Denied(DeniedReasonView),
}

impl View for DeniedReason {
    type V = DeniedReasonView;

    open spec fn view(&self) -> DeniedReasonView {
        match self {
            DeniedReason::PasswordExpired => DeniedReasonView::PasswordExpired,
            DeniedReason::AccountLocked { reason } => DeniedReasonView::AccountLocked {
                reason: reason@,
            },
        }
    }
}

impl View for LoginAction {
    type V = LoginActionView;

    open spec fn view(&self) -> LoginActionView {
        match self {
            LoginAction::Accept(role) => LoginActionView::Accept(*role),
            LoginAction::Denied(reason) => LoginActionView::Denied(reason@),
        }
    }
}

impl LoginAction {
    /// Hands the role of an accepted login to `on_success`, or the reason of
    /// a denied one to `on_denied`; the other callback is not called.
    pub fn do_login<S: Fn(&Role), D: Fn(&DeniedReason)>(&self, on_success: S, on_denied: D)
        requires
            self matches LoginAction::Accept(role) ==> on_success.requires((&role,)),
            self matches LoginAction::Denied(reason) ==> on_denied.requires((&reason,)),
        ensures
            self matches LoginAction::Accept(role) ==> on_success.ensures((&role,), ()),
            self matches LoginAction::Denied(reason) ==> on_denied.ensures((&reason,), ()),
    {
        match self {
            LoginAction::Accept(role) => on_success(role),
            LoginAction::Denied(reason) => on_denied(reason),
        }
    }
}

impl Clone for DeniedReason {
    fn clone(&self) -> (r: Self)
        ensures
            r == *self,
    {
        match self {
            DeniedReason::PasswordExpired => DeniedReason::PasswordExpired,
            DeniedReason::AccountLocked { reason } => DeniedReason::AccountLocked {
                reason: reason.clone(),
            },
        }
    }
}

impl Clone for LoginAction {
    fn clone(&self) -> (r: Self)
        ensures
            r == *self,
    {
        match self {
            LoginAction::Accept(role) => LoginAction::Accept(*role),
            LoginAction::Denied(reason) => LoginAction::Denied(reason.clone()),
        }
    }
}

impl PartialEq for DeniedReason {
    fn eq(&self, other: &DeniedReason) -> (r: bool)
        ensures
            r == (self@ == other@),
    {
        match self {
            DeniedReason::PasswordExpired => matches!(other, DeniedReason::PasswordExpired),
            DeniedReason::AccountLocked { reason: a } => match other {
                DeniedReason::AccountLocked { reason: b } => a.eq(b),
                DeniedReason::PasswordExpired => false,
            },
        }
    }
}

impl vstd::std_specs::cmp::PartialEqSpecImpl for DeniedReason {
    open spec fn obeys_eq_spec() -> bool {
        true
    }

    open spec fn eq_spec(&self, other: &DeniedReason) -> bool {
        self@ == other@
    }
}

impl PartialEq for LoginAction {
    fn eq(&self, other: &LoginAction) -> (r: bool)
        ensures
            r == (self@ == other@),
    {
        match (self, other) {
            (LoginAction::Accept(a), LoginAction::Accept(b)) => *a == *b,
            (LoginAction::Denied(a), LoginAction::Denied(b)) => a.eq(b),
            _ => false,
        }
    }
}

impl vstd::std_specs::cmp::PartialEqSpecImpl for LoginAction {
    open spec fn obeys_eq_spec() -> bool {
        true
    }

    open spec fn eq_spec(&self, other: &LoginAction) -> bool {
        self@ == other@
    }
}

} // verus!
