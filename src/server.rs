//! The decisions of a server worker. Each accepted connection gets a worker
//! that reads a message, answers it and reads again; the worker's loop and
//! its I/O stand outside this library, which decides, for the bytes of one
//! read, whether to answer or to close.

use vstd::prelude::*;
use crate::store::{login, lookup, UserStore};
use crate::wire::{decode_request, encode_response, request_of, response_bytes, response_view};

verus! {

/// What a worker does after one read.
#[derive(Debug)]
pub enum WorkerStep {
    /// Close the connection and end the worker, sending nothing.
    Close,
    /// Send these bytes and wait for the next request.
    Reply(Vec<u8>),
}

/// Decides what a worker does with the bytes of one read. A read of no bytes
/// means the peer has gone; bytes that hold no request are a protocol
/// violation. Either way the worker closes its connection without an answer.
/// Otherwise it answers with the store's decision on the request. The store
/// is only read, so no worker changes what another one sees.
pub fn handle_read(users: &UserStore, received: &[u8]) -> (r: WorkerStep)
    ensures
        received@.len() == 0 ==> r is Close,
        received@.len() > 0 ==> match request_of(received@) {
            Err(_) => r is Close,
            Ok(request) => r matches WorkerStep::Reply(bytes) && bytes@ == response_bytes(
                response_view(lookup(users@, request.0, request.1)),
            ),
        },
{
    if received.len() == 0 {
        return WorkerStep::Close;
    }
    match decode_request(received) {
        Err(_) => WorkerStep::Close,
        Ok(request) => {
            let response = login(users, request.username.as_str(), request.password.as_str());
            WorkerStep::Reply(encode_response(&response))
        },
    }
}

} // verus!
