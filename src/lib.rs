//! A login service: a credential store that answers login attempts with an
//! authorization decision, a compact binary wire format for requests and
//! responses, and the per-connection decisions of the server that serves them.

pub mod action;
pub mod text;
pub mod digest;
pub mod store;
pub mod wire;
pub mod roster;
pub mod server;
pub mod client;
pub mod primes;

pub use action::{DeniedReason, LoginAction, Role};
pub use client::ClientError;
pub use digest::hash_password;
pub use server::WorkerStep;
pub use store::{get_users, login, User, UserStore};
pub use text::{greet_user, is_login_allowed};
pub use wire::{DecodeError, LoginRequest};
