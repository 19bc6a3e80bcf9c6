//! The wire format of the login protocol.
//!
//! A request is the username and then the password; a response is an
//! optional decision. Strings are written as their UTF-8 length in eight
//! little-endian bytes followed by the UTF-8 bytes, enum variants as their
//! index in four little-endian bytes, and an optional value as one byte, `0`
//! for none and `1` followed by the value for some. Bytes after a complete
//! message are ignored by the decoders.
//!
//! This is the layout that bincode 1 gives these values under its default
//! options, so peers that encode with bincode can talk to this library. The
//! format is written out here, rather than produced by bincode, so that both
//! directions carry exact contracts and the round trip is proved.

use vstd::prelude::*;
use vstd::bytes::*;
use vstd::utf8::*;
use crate::action::{DeniedReason, DeniedReasonView, LoginAction, LoginActionView, Role};
use crate::text::string_from_utf8;

verus! {

broadcast use {encode_utf8_valid_utf8, encode_utf8_decode_utf8};

/// A login attempt as it travels from client to server.
#[derive(Debug)]
pub struct LoginRequest {
    pub username: String,
    pub password: String,
}

impl View for LoginRequest {
    type V = (Seq<char>, Seq<char>);

    open spec fn view(&self) -> (Seq<char>, Seq<char>) {
        (self.username@, self.password@)
    }
}

/// Why a message could not be decoded.
#[derive(PartialEq, Eq, Structural, Clone, Copy, Debug)]
pub enum DecodeError {
    /// The bytes end before the message does.
    Truncated,
    /// A string's bytes are not valid UTF-8.
    InvalidUtf8,
    /// A variant index or an option tag names no value.
    InvalidTag,
}

/// The encoding of a string.
pub open spec fn str_bytes(s: Seq<char>) -> Seq<u8> {
    spec_u64_to_le_bytes(encode_utf8(s).len() as u64) + encode_utf8(s)
}

/// The encoding of a variant index.
pub open spec fn tag_bytes(tag: u32) -> Seq<u8> {
    spec_u32_to_le_bytes(tag)
}

/// The variant index of a role.
pub open spec fn role_tag(role: Role) -> u32 {
    match role {
        Role::Admin => 0,
        Role::User => 1,
        Role::Limited => 2,
    }
}

/// The encoding of a role.
pub open spec fn role_bytes(role: Role) -> Seq<u8> {
    tag_bytes(role_tag(role))
}

/// The encoding of a reason for denial.
pub open spec fn reason_bytes(reason: DeniedReasonView) -> Seq<u8> {
    match reason {
        DeniedReasonView::PasswordExpired => tag_bytes(0),
        DeniedReasonView::AccountLocked { reason } => tag_bytes(1) + str_bytes(reason),
    }
}

/// The encoding of a decision.
pub open spec fn action_bytes(action: LoginActionView) -> Seq<u8> {
    match action {
        LoginActionView::Accept(role) => tag_bytes(0) + role_bytes(role),
        LoginActionView::Denied(reason) => tag_bytes(1) + reason_bytes(reason),
    }
}

/// The encoding of a response.
pub open spec fn response_bytes(response: Option<LoginActionView>) -> Seq<u8> {
    match response {
        None => seq![0u8],
        Some(action) => seq![1u8] + action_bytes(action),
    }
}

/// The encoding of a request.
pub open spec fn request_bytes(request: (Seq<char>, Seq<char>)) -> Seq<u8> {
    str_bytes(request.0) + str_bytes(request.1)
}

/// The mathematical value of an optional decision.
pub open spec fn response_view(response: Option<LoginAction>) -> Option<LoginActionView> {
    match response {
        None => None,
        Some(action) => Some(action@),
    }
}

/// Appends the encoding of a string.
fn write_str(out: &mut Vec<u8>, s: &str)
    ensures
        final(out)@ == old(out)@ + str_bytes(s@),
{
    let bytes = s.as_bytes();
    let n = bytes.len();
    let len_bytes = u64_to_le_bytes(n as u64);
    out.extend_from_slice(len_bytes.as_slice());
    out.extend_from_slice(bytes);
    proof {
        assert(final(out)@ =~= old(out)@ + str_bytes(s@));
    }
}

/// Appends the encoding of a variant index.
fn write_tag(out: &mut Vec<u8>, tag: u32)
    ensures
        final(out)@ == old(out)@ + tag_bytes(tag),
{
    let tag_le = u32_to_le_bytes(tag);
    out.extend_from_slice(tag_le.as_slice());
}

/// Appends the encoding of a role.
fn write_role(out: &mut Vec<u8>, role: Role)
    ensures
        final(out)@ == old(out)@ + role_bytes(role),
{
    match role {
        Role::Admin => write_tag(out, 0),
        Role::User => write_tag(out, 1),
        Role::Limited => write_tag(out, 2),
    }
}

/// Appends the encoding of a reason for denial.
fn write_reason(out: &mut Vec<u8>, reason: &DeniedReason)
    ensures
        final(out)@ == old(out)@ + reason_bytes(reason@),
{
    match reason {
        DeniedReason::PasswordExpired => write_tag(out, 0),
        DeniedReason::AccountLocked { reason: text } => {
            write_tag(out, 1);
            write_str(out, text.as_str());
            proof {
                assert(final(out)@ =~= old(out)@ + reason_bytes(reason@));
            }
        },
    }
}

/// Appends the encoding of a decision.
fn write_action(out: &mut Vec<u8>, action: &LoginAction)
    ensures
        final(out)@ == old(out)@ + action_bytes(action@),
{
    match action {
        LoginAction::Accept(role) => {
            write_tag(out, 0);
            write_role(out, *role);
        },
        LoginAction::Denied(reason) => {
            write_tag(out, 1);
            write_reason(out, reason);
        },
    }
    proof {
        assert(final(out)@ =~= old(out)@ + action_bytes(action@));
    }
}

/// The bytes of a request.
pub fn encode_request(request: &LoginRequest) -> (r: Vec<u8>)
    ensures
        r@ == request_bytes(request@),
{
    let mut out: Vec<u8> = Vec::new();
    write_str(&mut out, request.username.as_str());
    write_str(&mut out, request.password.as_str());
    proof {
        assert(out@ =~= request_bytes(request@));
    }
    out
}

/// The bytes of a response.
pub fn encode_response(response: &Option<LoginAction>) -> (r: Vec<u8>)
    ensures
        r@ == response_bytes(response_view(*response)),
{
    let mut out: Vec<u8> = Vec::new();
    match response {
        None => out.push(0),
        Some(action) => {
            out.push(1);
            write_action(&mut out, action);
        },
    }
    proof {
        assert(out@ =~= response_bytes(response_view(*response)));
    }
    out
}

/// Reads a string from the front of `b`, giving the string and the bytes
/// after it.
pub open spec fn parse_str(b: Seq<u8>) -> Result<(Seq<char>, Seq<u8>), DecodeError> {
    if b.len() < 8 {
        Err(DecodeError::Truncated)
    } else {
        let n = spec_u64_from_le_bytes(b.subrange(0, 8)) as int;
        let rest = b.subrange(8, b.len() as int);
        if n > rest.len() {
            Err(DecodeError::Truncated)
        } else if !valid_utf8(rest.subrange(0, n)) {
            Err(DecodeError::InvalidUtf8)
        } else {
            Ok((decode_utf8(rest.subrange(0, n)), rest.subrange(n, rest.len() as int)))
        }
    }
}

/// Reads a variant index from the front of `b`.
pub open spec fn parse_tag(b: Seq<u8>) -> Result<(u32, Seq<u8>), DecodeError> {
    if b.len() < 4 {
        Err(DecodeError::Truncated)
    } else {
        Ok((spec_u32_from_le_bytes(b.subrange(0, 4)), b.subrange(4, b.len() as int)))
    }
}

/// Reads a role from the front of `b`.
pub open spec fn parse_role(b: Seq<u8>) -> Result<(Role, Seq<u8>), DecodeError> {
    match parse_tag(b) {
        Err(e) => Err(e),
        Ok((tag, rest)) => if tag == 0 {
            Ok((Role::Admin, rest))
        } else if tag == 1 {
            Ok((Role::User, rest))
        } else if tag == 2 {
            Ok((Role::Limited, rest))
        } else {
            Err(DecodeError::InvalidTag)
        },
    }
}

/// Reads a reason for denial from the front of `b`.
pub open spec fn parse_reason(b: Seq<u8>) -> Result<(DeniedReasonView, Seq<u8>), DecodeError> {
    match parse_tag(b) {
        Err(e) => Err(e),
        Ok((tag, rest)) => if tag == 0 {
            Ok((DeniedReasonView::PasswordExpired, rest))
        } else if tag == 1 {
            match parse_str(rest) {
                Err(e) => Err(e),
                Ok((text, after)) => Ok((DeniedReasonView::AccountLocked { reason: text }, after)),
            }
        } else {
            Err(DecodeError::InvalidTag)
        },
    }
}

/// Reads a decision from the front of `b`.
pub open spec fn parse_action(b: Seq<u8>) -> Result<(LoginActionView, Seq<u8>), DecodeError> {
    match parse_tag(b) {
        Err(e) => Err(e),
        Ok((tag, rest)) => if tag == 0 {
            match parse_role(rest) {
                Err(e) => Err(e),
                Ok((role, after)) => Ok((LoginActionView::Accept(role), after)),
            }
        } else if tag == 1 {
            match parse_reason(rest) {
                Err(e) => Err(e),
                Ok((reason, after)) => Ok((LoginActionView::Denied(reason), after)),
            }
        } else {
            Err(DecodeError::InvalidTag)
        },
    }
}

/// Reads a response from the front of `b`.
pub open spec fn parse_response(b: Seq<u8>) -> Result<
    (Option<LoginActionView>, Seq<u8>),
    DecodeError,
> {
    if b.len() < 1 {
        Err(DecodeError::Truncated)
    } else if b[0] == 0 {
        Ok((None, b.subrange(1, b.len() as int)))
    } else if b[0] == 1 {
        match parse_action(b.subrange(1, b.len() as int)) {
            Err(e) => Err(e),
            Ok((action, after)) => Ok((Some(action), after)),
        }
    } else {
        Err(DecodeError::InvalidTag)
    }
}

/// Reads a request from the front of `b`.
pub open spec fn parse_request(b: Seq<u8>) -> Result<((Seq<char>, Seq<char>), Seq<u8>), DecodeError> {
    match parse_str(b) {
        Err(e) => Err(e),
        Ok((username, rest)) => match parse_str(rest) {
            Err(e) => Err(e),
            Ok((password, after)) => Ok(((username, password), after)),
        },
    }
}

/// The request that a message holds, with any bytes after it ignored.
pub open spec fn request_of(b: Seq<u8>) -> Result<(Seq<char>, Seq<char>), DecodeError> {
    match parse_request(b) {
        Err(e) => Err(e),
        Ok((request, _)) => Ok(request),
    }
}

/// The response that a message holds, with any bytes after it ignored.
pub open spec fn response_of(b: Seq<u8>) -> Result<Option<LoginActionView>, DecodeError> {
    match parse_response(b) {
        Err(e) => Err(e),
        Ok((response, _)) => Ok(response),
    }
}

/// Reads a string at position `pos`, giving it and the position after it.
fn read_str(b: &[u8], pos: usize) -> (r: Result<(String, usize), DecodeError>)
    requires
        pos <= b@.len(),
    ensures
        match r {
            Ok((s, next)) => pos <= next <= b@.len() && parse_str(b@.subrange(pos as int, b@.len() as int))
                == Ok::<_, DecodeError>((s@, b@.subrange(next as int, b@.len() as int))),
            Err(e) => parse_str(b@.subrange(pos as int, b@.len() as int)) == Err::<(Seq<char>, Seq<u8>), _>(e),
        },
{
    let ghost rest = b@.subrange(pos as int, b@.len() as int);
    if b.len() - pos < 8 {
        return Err(DecodeError::Truncated);
    }
    let n = u64_from_le_bytes(vstd::slice::slice_subrange(b, pos, pos + 8));
    let start = pos + 8;
    proof {
        assert(rest.subrange(0, 8) =~= b@.subrange(pos as int, pos + 8));
        assert(rest.subrange(8, rest.len() as int) =~= b@.subrange(start as int, b@.len() as int));
    }
    if n > (b.len() - start) as u64 {
        return Err(DecodeError::Truncated);
    }
    let end = start + n as usize;
    let bytes = vstd::slice::slice_to_vec(vstd::slice::slice_subrange(b, start, end));
    proof {
        let after = b@.subrange(start as int, b@.len() as int);
        assert(after.subrange(0, n as int) =~= bytes@);
        assert(after.subrange(n as int, after.len() as int) =~= b@.subrange(end as int, b@.len() as int));
    }
    match string_from_utf8(bytes) {
        None => Err(DecodeError::InvalidUtf8),
        Some(s) => Ok((s, end)),
    }
}

/// Reads a variant index at position `pos`.
fn read_tag(b: &[u8], pos: usize) -> (r: Result<(u32, usize), DecodeError>)
    requires
        pos <= b@.len(),
    ensures
        match r {
            Ok((tag, next)) => pos <= next <= b@.len() && parse_tag(b@.subrange(pos as int, b@.len() as int))
                == Ok::<_, DecodeError>((tag, b@.subrange(next as int, b@.len() as int))),
            Err(e) => parse_tag(b@.subrange(pos as int, b@.len() as int)) == Err::<(u32, Seq<u8>), _>(e),
        },
{
    let ghost rest = b@.subrange(pos as int, b@.len() as int);
    if b.len() - pos < 4 {
        return Err(DecodeError::Truncated);
    }
    let tag = u32_from_le_bytes(vstd::slice::slice_subrange(b, pos, pos + 4));
    proof {
        assert(rest.subrange(0, 4) =~= b@.subrange(pos as int, pos + 4));
        assert(rest.subrange(4, rest.len() as int) =~= b@.subrange(pos + 4, b@.len() as int));
    }
    Ok((tag, pos + 4))
}

/// Reads a role at position `pos`.
fn read_role(b: &[u8], pos: usize) -> (r: Result<(Role, usize), DecodeError>)
    requires
        pos <= b@.len(),
    ensures
        match r {
            Ok((role, next)) => pos <= next <= b@.len() && parse_role(b@.subrange(pos as int, b@.len() as int))
                == Ok::<_, DecodeError>((role, b@.subrange(next as int, b@.len() as int))),
            Err(e) => parse_role(b@.subrange(pos as int, b@.len() as int)) == Err::<(Role, Seq<u8>), _>(e),
        },
{
    let (tag, next) = read_tag(b, pos)?;
    if tag == 0 {
        Ok((Role::Admin, next))
    } else if tag == 1 {
        Ok((Role::User, next))
    } else if tag == 2 {
        Ok((Role::Limited, next))
    } else {
        Err(DecodeError::InvalidTag)
    }
}

/// Reads a reason for denial at position `pos`.
fn read_reason(b: &[u8], pos: usize) -> (r: Result<(DeniedReason, usize), DecodeError>)
    requires
        pos <= b@.len(),
    ensures
        match r {
            Ok((reason, next)) => pos <= next <= b@.len() && parse_reason(b@.subrange(pos as int, b@.len() as int))
                == Ok::<_, DecodeError>((reason@, b@.subrange(next as int, b@.len() as int))),
            Err(e) => parse_reason(b@.subrange(pos as int, b@.len() as int)) == Err::<(DeniedReasonView, Seq<u8>), _>(e),
        },
{
    let (tag, next) = read_tag(b, pos)?;
    if tag == 0 {
        Ok((DeniedReason::PasswordExpired, next))
    } else if tag == 1 {
        let (text, after) = read_str(b, next)?;
        Ok((DeniedReason::AccountLocked { reason: text }, after))
    } else {
        Err(DecodeError::InvalidTag)
    }
}

/// Reads a decision at position `pos`.
fn read_action(b: &[u8], pos: usize) -> (r: Result<(LoginAction, usize), DecodeError>)
    requires
        pos <= b@.len(),
    ensures
        match r {
            Ok((action, next)) => pos <= next <= b@.len() && parse_action(b@.subrange(pos as int, b@.len() as int))
                == Ok::<_, DecodeError>((action@, b@.subrange(next as int, b@.len() as int))),
            Err(e) => parse_action(b@.subrange(pos as int, b@.len() as int)) == Err::<(LoginActionView, Seq<u8>), _>(e),
        },
{
    let (tag, next) = read_tag(b, pos)?;
    if tag == 0 {
        let (role, after) = read_role(b, next)?;
        Ok((LoginAction::Accept(role), after))
    } else if tag == 1 {
        let (reason, after) = read_reason(b, next)?;
        Ok((LoginAction::Denied(reason), after))
    } else {
        Err(DecodeError::InvalidTag)
    }
}

/// Decodes the request at the front of a message.
pub fn decode_request(b: &[u8]) -> (r: Result<LoginRequest, DecodeError>)
    ensures
        match r {
            Ok(request) => request_of(b@) == Ok::<_, DecodeError>(request@),
            Err(e) => request_of(b@) == Err::<(Seq<char>, Seq<char>), _>(e),
        },
{
    proof {
        assert(b@.subrange(0, b@.len() as int) =~= b@);
    }
    let (username, next) = read_str(b, 0)?;
    let (password, _) = read_str(b, next)?;
    Ok(LoginRequest { username, password })
}

/// Decodes the response at the front of a message.
pub fn decode_response(b: &[u8]) -> (r: Result<Option<LoginAction>, DecodeError>)
    ensures
        match r {
            Ok(response) => response_of(b@) == Ok::<_, DecodeError>(response_view(response)),
            Err(e) => response_of(b@) == Err::<Option<LoginActionView>, _>(e),
        },
{
    if b.len() < 1 {
        return Err(DecodeError::Truncated);
    }
    if b[0] == 0 {
        Ok(None)
    } else if b[0] == 1 {
        let (action, _) = read_action(b, 1)?;
        Ok(Some(action))
    } else {
        Err(DecodeError::InvalidTag)
    }
}

/// Whether every string in a decision has a UTF-8 length that its length
/// field can hold.
pub open spec fn action_fits(action: LoginActionView) -> bool {
    match action {
        LoginActionView::Denied(DeniedReasonView::AccountLocked { reason }) => encode_utf8(reason).len()
            <= u64::MAX,
        _ => true,
    }
}

proof fn lemma_str_round_trip(s: Seq<char>, tail: Seq<u8>)
    requires
        encode_utf8(s).len() <= u64::MAX,
    ensures
        parse_str(str_bytes(s) + tail) == Ok::<_, DecodeError>((s, tail)),
{
    lemma_auto_spec_u64_to_from_le_bytes();
    let e = encode_utf8(s);
    let b = str_bytes(s) + tail;
    let len_le = spec_u64_to_le_bytes(e.len() as u64);
    assert(b.subrange(0, 8) =~= len_le);
    let rest = b.subrange(8, b.len() as int);
    assert(rest =~= e + tail);
    assert(rest.subrange(0, e.len() as int) =~= e);
    assert(rest.subrange(e.len() as int, rest.len() as int) =~= tail);
}

proof fn lemma_tag_round_trip(tag: u32, tail: Seq<u8>)
    ensures
        parse_tag(tag_bytes(tag) + tail) == Ok::<_, DecodeError>((tag, tail)),
{
    lemma_auto_spec_u32_to_from_le_bytes();
    let b = tag_bytes(tag) + tail;
    assert(b.subrange(0, 4) =~= tag_bytes(tag));
    assert(b.subrange(4, b.len() as int) =~= tail);
}

proof fn lemma_action_round_trip(action: LoginActionView, tail: Seq<u8>)
    requires
        action_fits(action),
    ensures
        parse_action(action_bytes(action) + tail) == Ok::<_, DecodeError>((action, tail)),
{
    match action {
        LoginActionView::Accept(role) => {
            let inner = role_bytes(role) + tail;
            assert(action_bytes(action) + tail =~= tag_bytes(0) + inner);
            lemma_tag_round_trip(0, inner);
            lemma_tag_round_trip(role_tag(role), tail);
        },
        LoginActionView::Denied(reason) => {
            let inner = reason_bytes(reason) + tail;
            assert(action_bytes(action) + tail =~= tag_bytes(1) + inner);
            lemma_tag_round_trip(1, inner);
            match reason {
                DeniedReasonView::PasswordExpired => {
                    lemma_tag_round_trip(0, tail);
                },
                DeniedReasonView::AccountLocked { reason: text } => {
                    assert(inner =~= tag_bytes(1) + (str_bytes(text) + tail));
                    lemma_tag_round_trip(1, str_bytes(text) + tail);
                    lemma_str_round_trip(text, tail);
                },
            }
        },
    }
}

/// Decoding the encoding of a request gives the request back.
pub proof fn law_request_round_trip(request: LoginRequest)
    requires
        encode_utf8(request.username@).len() <= u64::MAX,
        encode_utf8(request.password@).len() <= u64::MAX,
    ensures
        request_of(request_bytes(request@)) == Ok::<_, DecodeError>(request@),
{
    let u = request.username@;
    let p = request.password@;
    lemma_str_round_trip(u, str_bytes(p));
    lemma_str_round_trip(p, Seq::empty());
    assert(str_bytes(p) + Seq::<u8>::empty() =~= str_bytes(p));
}

/// Decoding the encoding of a response gives the response back, and the
/// encoding is never empty, so a reader cannot take it for a closed
/// connection.
pub proof fn law_response_round_trip(response: Option<LoginAction>)
    requires
        response matches Some(action) ==> action_fits(action@),
    ensures
        response_bytes(response_view(response)).len() > 0,
        response_of(response_bytes(response_view(response))) == Ok::<_, DecodeError>(
            response_view(response),
        ),
{
    let b = response_bytes(response_view(response));
    match response {
        None => {},
        Some(action) => {
            assert(b.subrange(1, b.len() as int) =~= action_bytes(action@) + Seq::<u8>::empty());
            lemma_action_round_trip(action@, Seq::empty());
        },
    }
}

} // verus!
