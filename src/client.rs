//! The client's side of one login exchange: the bytes it sends, and what it
//! makes of the bytes it reads back.

use vstd::prelude::*;
use crate::action::LoginAction;
use crate::wire::{
    decode_response, encode_request, request_bytes, response_of, response_view, DecodeError,
    LoginRequest,
};

verus! {

/// Why a login call brought back no answer.
#[derive(PartialEq, Eq, Structural, Clone, Copy, Debug)]
pub enum ClientError {
    /// Connecting, sending or reading failed.
    Io,
    /// The server closed the connection without answering.
    Disconnected,
    /// The answer could not be decoded.
    Decode(DecodeError),
}

/// The message that asks the server to check a username and password.
pub fn login_request(username: &str, password: &str) -> (r: Vec<u8>)
    ensures
        r@ == request_bytes((username@, password@)),
{
    let request = LoginRequest { username: username.to_owned(), password: password.to_owned() };
    encode_request(&request)
}

/// What the bytes of the read that follows a request mean: no bytes mean the
/// server has closed the connection; otherwise they hold the answer.
pub fn read_reply(received: &[u8]) -> (r: Result<Option<LoginAction>, ClientError>)
    ensures
        received@.len() == 0 ==> r == Err::<Option<LoginAction>, _>(ClientError::Disconnected),
        received@.len() > 0 ==> match response_of(received@) {
            Ok(response) => r matches Ok(answer) && response_view(answer) == response,
            Err(e) => r == Err::<Option<LoginAction>, _>(ClientError::Decode(e)),
        },
{
    if received.len() == 0 {
        return Err(ClientError::Disconnected);
    }
    match decode_response(received) {
        Ok(answer) => Ok(answer),
        Err(e) => Err(ClientError::Decode(e)),
    }
}

} // verus!
