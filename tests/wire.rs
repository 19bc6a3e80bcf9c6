use login_rpc::client::{login_request, read_reply};
use login_rpc::wire::{decode_request, decode_response, encode_request, encode_response};
use login_rpc::{ClientError, DecodeError, DeniedReason, LoginAction, LoginRequest, Role};

fn request(username: &str, password: &str) -> LoginRequest {
    LoginRequest { username: username.to_string(), password: password.to_string() }
}

fn all_responses() -> Vec<Option<LoginAction>> {
    vec![
        None,
        Some(LoginAction::Accept(Role::Admin)),
        Some(LoginAction::Accept(Role::User)),
        Some(LoginAction::Accept(Role::Limited)),
        Some(LoginAction::Denied(DeniedReason::PasswordExpired)),
        Some(LoginAction::Denied(DeniedReason::AccountLocked { reason: String::new() })),
        Some(LoginAction::Denied(DeniedReason::AccountLocked { reason: "Call Human Resources!".to_string() })),
    ]
}

#[test]
fn request_round_trip() {
    for (u, p) in [("herbert", "password"), ("", ""), ("Zoë ☃", "pässwörd\n")] {
        let r = request(u, p);
        let back = decode_request(&encode_request(&r)).unwrap();
        assert_eq!(back.username, u);
        assert_eq!(back.password, p);
    }
}

#[test]
fn response_round_trip() {
    for r in all_responses() {
        assert_eq!(decode_response(&encode_response(&r)), Ok(r));
    }
}

#[test]
fn request_layout_is_exact() {
    let bytes = encode_request(&request("ab", "c"));
    assert_eq!(bytes, vec![2, 0, 0, 0, 0, 0, 0, 0, b'a', b'b', 1, 0, 0, 0, 0, 0, 0, 0, b'c']);
    assert_eq!(login_request("ab", "c"), bytes);
}

#[test]
fn response_layout_is_exact() {
    assert_eq!(encode_response(&None), vec![0]);
    assert_eq!(encode_response(&Some(LoginAction::Accept(Role::Limited))), vec![1, 0, 0, 0, 0, 2, 0, 0, 0]);
    assert_eq!(
        encode_response(&Some(LoginAction::Denied(DeniedReason::AccountLocked { reason: "x".to_string() }))),
        vec![1, 1, 0, 0, 0, 1, 0, 0, 0, 1, 0, 0, 0, 0, 0, 0, 0, b'x']
    );
}

#[test]
fn request_matches_bincode() {
    let ours = encode_request(&request("herbert", "password"));
    let theirs = bincode::serialize(&("herbert".to_string(), "password".to_string())).unwrap();
    assert_eq!(ours, theirs);
}

#[test]
fn response_matches_bincode() {
    let none: Option<(u32, u32)> = None;
    assert_eq!(encode_response(&None), bincode::serialize(&none).unwrap());
    assert_eq!(
        encode_response(&Some(LoginAction::Accept(Role::User))),
        bincode::serialize(&Some((0u32, 1u32))).unwrap()
    );
    assert_eq!(
        encode_response(&Some(LoginAction::Denied(DeniedReason::AccountLocked { reason: "locked".to_string() }))),
        bincode::serialize(&Some((1u32, 1u32, "locked".to_string()))).unwrap()
    );
    let decoded: (String, String) = bincode::deserialize(&encode_request(&request("bob", "pw"))).unwrap();
    assert_eq!(decoded, ("bob".to_string(), "pw".to_string()));
}

#[test]
fn trailing_bytes_are_ignored() {
    let mut bytes = encode_response(&Some(LoginAction::Accept(Role::Admin)));
    bytes.extend_from_slice(&[9, 9, 9]);
    assert_eq!(decode_response(&bytes), Ok(Some(LoginAction::Accept(Role::Admin))));
}

#[test]
fn truncated_messages_are_rejected() {
    assert_eq!(decode_response(&[]), Err(DecodeError::Truncated));
    assert_eq!(decode_response(&[1, 0, 0]), Err(DecodeError::Truncated));
    let bytes = encode_request(&request("herbert", "password"));
    for n in 0..bytes.len() {
        assert_eq!(decode_request(&bytes[..n]).unwrap_err(), DecodeError::Truncated);
    }
    assert_eq!(decode_request(&[255, 255, 255, 255, 255, 255, 255, 255, 0]).unwrap_err(), DecodeError::Truncated);
}

#[test]
fn bad_tags_are_rejected() {
    assert_eq!(decode_response(&[2]), Err(DecodeError::InvalidTag));
    assert_eq!(decode_response(&[1, 2, 0, 0, 0]), Err(DecodeError::InvalidTag));
    assert_eq!(decode_response(&[1, 0, 0, 0, 0, 3, 0, 0, 0]), Err(DecodeError::InvalidTag));
    assert_eq!(decode_response(&[1, 1, 0, 0, 0, 2, 0, 0, 0]), Err(DecodeError::InvalidTag));
}

#[test]
fn invalid_utf8_is_rejected() {
    let bytes = [1, 0, 0, 0, 0, 0, 0, 0, 0xff, 0, 0, 0, 0, 0, 0, 0, 0];
    assert_eq!(decode_request(&bytes).unwrap_err(), DecodeError::InvalidUtf8);
}

#[test]
fn client_reads_replies() {
    assert_eq!(read_reply(&[]), Err(ClientError::Disconnected));
    assert_eq!(read_reply(&[0]), Ok(None));
    assert_eq!(read_reply(&[7]), Err(ClientError::Decode(DecodeError::InvalidTag)));
    assert_eq!(
        read_reply(&encode_response(&Some(LoginAction::Denied(DeniedReason::PasswordExpired)))),
        Ok(Some(LoginAction::Denied(DeniedReason::PasswordExpired)))
    );
}
