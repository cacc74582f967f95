use anchr::auth::{
    build_auth_request, build_unauthorized_response, gate_allows, handle_auth_request,
    handle_auth_response, AuthResponseOutcome, AuthState,
};
use anchr::dispatch::{route_server, ServerRoute};
use anchr::header::WsmHeader;
use anchr::msg_id::IdPool;

#[test]
fn auth_success_scenario() {
    // Client: {0x03, id=0x42, 0x03, 0x00, len=4, "abcd"} — server with the
    // token "abcd" answers {0x00, id=0x42, 0x03, 0xFF, len=0} and the
    // connection becomes authenticated.
    let mut state = AuthState::Unauthenticated;
    let (reply, ok) = handle_auth_request(&mut state, 0x42, b"abcd", b"abcd");
    assert!(ok);
    assert_eq!(state, AuthState::Authenticated);
    assert_eq!(reply, vec![0x00, 0x42, 0x03, 0xFF, 0, 0, 0, 0]);

    // The client reads that reply as a success.
    let mut client_state = AuthState::Unauthenticated;
    let header = WsmHeader::from_bytes(&reply);
    let outcome = handle_auth_response(&mut client_state, &header);
    assert_eq!(outcome, AuthResponseOutcome::Success);
    assert_eq!(client_state, AuthState::Authenticated);
}

#[test]
fn auth_failure_scenario() {
    // Same exchange with the token "wrong": a final reply carrying the
    // reason, the server state untouched.
    let mut state = AuthState::Unauthenticated;
    let (reply, ok) = handle_auth_request(&mut state, 0x42, b"wrong", b"abcd");
    assert!(!ok);
    assert_eq!(state, AuthState::Unauthenticated);
    let reason = b"Invalid authentication token";
    let mut expected = vec![0x00, 0x42, 0x03, 0xFF, reason.len() as u8, 0, 0, 0];
    expected.extend_from_slice(reason);
    assert_eq!(reply, expected);

    // The client reads it as a rejection and stops reconnecting.
    let mut client_state = AuthState::Unauthenticated;
    let header = WsmHeader::from_bytes(&reply[0..8]);
    let outcome = handle_auth_response(&mut client_state, &header);
    assert_eq!(outcome, AuthResponseOutcome::Failure);
    assert_eq!(client_state, AuthState::Unauthenticated);
}

#[test]
fn non_final_reply_is_not_an_auth_answer() {
    let mut state = AuthState::Unauthenticated;
    let header = WsmHeader::from_bytes(&[0x00, 0x09, 0x03, 0x00, 0, 0, 0, 0]);
    assert_eq!(handle_auth_response(&mut state, &header), AuthResponseOutcome::Ignored);
    assert_eq!(state, AuthState::Unauthenticated);
}

#[test]
fn gate_blocks_everything_but_ping_and_auth() {
    for opcode in 0u8..=255 {
        let allowed = gate_allows(AuthState::Unauthenticated, opcode);
        assert_eq!(allowed, opcode == 0x01 || opcode == 0x03);
        assert!(gate_allows(AuthState::Authenticated, opcode));
    }
    assert_eq!(route_server(AuthState::Unauthenticated, 0x05), ServerRoute::Denied);
    assert_eq!(route_server(AuthState::Unauthenticated, 0x06), ServerRoute::Denied);
    assert_eq!(route_server(AuthState::Unauthenticated, 0x01), ServerRoute::Ping);
    assert_eq!(route_server(AuthState::Unauthenticated, 0x03), ServerRoute::Auth);
    assert_eq!(route_server(AuthState::Authenticated, 0x05), ServerRoute::ListRequest);
}

#[test]
fn unauthorized_reply_bytes() {
    let reason = b"Unauthenticated";
    let reply = build_unauthorized_response(0x21);
    let mut expected = vec![0xFF, 0x21, 0x03, 0xFF, reason.len() as u8, 0, 0, 0];
    expected.extend_from_slice(reason);
    assert_eq!(reply, expected);
}

#[test]
fn auth_request_frame_shape() {
    let mut pool = IdPool::new();
    let frame = build_auth_request(&mut pool, b"abcd");
    assert_eq!(frame.len(), 12);
    assert_eq!(frame[0], 0x03);
    assert_eq!(frame[2], 0x03);
    assert_eq!(frame[3], 0x00);
    assert_eq!(&frame[4..8], &[4, 0, 0, 0]);
    assert_eq!(&frame[8..12], b"abcd");
    assert!(pool.contains(frame[1]));
}
