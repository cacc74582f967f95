//! The authentication handshake and the opcode barrier it arms.
//!
//! A connection starts unauthenticated. The one allowed transition is to
//! authenticated, on a byte-for-byte token match; there is no downgrade. An
//! unauthenticated peer may only ping and authenticate: everything else draws
//! a final fatal reply and costs it the connection.

use crate::hashing::bytes_eq;
use crate::header::{
    spec_frame, PayloadType, WsmHeader, OPCODE_AUTH, OPCODE_ERROR_FATAL, OPCODE_PING, OPCODE_REPLY,
    RESERVED_FINAL_FLAG,
};
use vstd::prelude::*;
use vstd::string::StringSliceAdditionalSpecFns;

verus! {

/// Per-connection authentication state.
#[derive(Debug, Clone, Copy, PartialEq, Eq, Structural)]
pub enum AuthState {
    Unauthenticated,
    Authenticated,
}

/// What the client concluded from a generic reply while unauthenticated.
#[derive(Debug, Clone, Copy, PartialEq, Eq, Structural)]
pub enum AuthResponseOutcome {
    /// Final reply with an empty payload: the server accepted the token.
    Success,
    /// Final reply with a reason payload: rejected; stop reconnecting.
    Failure,
    /// Not a final reply: not an auth answer at all.
    Ignored,
}

/// Which opcodes an endpoint in `state` may submit: everything once
/// authenticated, only PING and the auth request before.
pub open spec fn spec_gate_allows(state: AuthState, opcode: u8) -> bool {
    state == AuthState::Authenticated || opcode == OPCODE_PING || opcode == OPCODE_AUTH
}

/// Whether the server may route `opcode` for a connection in `state`.
pub fn gate_allows(state: AuthState, opcode: u8) -> (r: bool)
    ensures
        r == spec_gate_allows(state, opcode),
{
    state == AuthState::Authenticated || opcode == OPCODE_PING || opcode == OPCODE_AUTH
}

/// While a connection is unauthenticated, everything but PING and the auth
/// request is refused.
pub proof fn lemma_unauth_gate(opcode: u8)
    requires
        opcode != OPCODE_PING,
        opcode != OPCODE_AUTH,
    ensures
        !spec_gate_allows(AuthState::Unauthenticated, opcode),
{
}

/// The reply to an accepted token: a bare final generic reply.
pub open spec fn spec_auth_ok_reply(message_id: u8) -> Seq<u8> {
    spec_frame(
        WsmHeader {
            opcode: OPCODE_REPLY,
            message_id,
            payload_type: 0x03,
            reserved: RESERVED_FINAL_FLAG,
            payload_len: 0,
        },
        Seq::empty(),
    )
}

/// The reply to a rejected token: a final generic reply carrying the reason.
pub open spec fn spec_auth_fail_reply(message_id: u8) -> Seq<u8> {
    spec_frame(
        WsmHeader {
            opcode: OPCODE_REPLY,
            message_id,
            payload_type: 0x03,
            reserved: RESERVED_FINAL_FLAG,
            payload_len: "Invalid authentication token".spec_bytes().len() as u32,
        },
        "Invalid authentication token".spec_bytes(),
    )
}

/// The server's handling of an auth request: compares the received token
/// byte-for-byte with the configured one. On a match the connection becomes
/// authenticated and the reply is a bare final reply; otherwise the state is
/// untouched and the reply carries the reason, after which the caller closes
/// the connection.
pub fn handle_auth_request(
    state: &mut AuthState,
    message_id: u8,
    token: &[u8],
    expected: &[u8],
) -> (r: (Vec<u8>, bool))
    ensures
        r.1 == (token@ == expected@),
        token@ == expected@ ==> *final(state) == AuthState::Authenticated && r.0@
            == spec_auth_ok_reply(message_id),
        token@ != expected@ ==> *final(state) == *old(state) && r.0@ == spec_auth_fail_reply(
            message_id,
        ),
{
    if bytes_eq(token, expected) {
        *state = AuthState::Authenticated;
        let header = WsmHeader::with_reserved(
            OPCODE_REPLY,
            message_id,
            PayloadType::Raw,
            0,
            RESERVED_FINAL_FLAG,
        );
        let reply = header.to_bytes();
        proof {
            assert(reply@ =~= spec_auth_ok_reply(message_id));
        }
        (reply, true)
    } else {
        let reason = "Invalid authentication token".as_bytes();
        proof {
            reveal_strlit("Invalid authentication token");
            assert(vstd::string::is_ascii("Invalid authentication token"));
            vstd::utf8::is_ascii_chars_encode_utf8("Invalid authentication token"@);
        }
        let header = WsmHeader::with_reserved(
            OPCODE_REPLY,
            message_id,
            PayloadType::Raw,
            reason.len() as u32,
            RESERVED_FINAL_FLAG,
        );
        let reply = crate::header::encode_frame(&header, reason);
        (reply, false)
    }
}

/// The fatal reply to a gated opcode, sent just before the server breaks the
/// dispatch loop.
pub open spec fn spec_unauthorized_reply(message_id: u8) -> Seq<u8> {
    spec_frame(
        WsmHeader {
            opcode: OPCODE_ERROR_FATAL,
            message_id,
            payload_type: 0x03,
            reserved: RESERVED_FINAL_FLAG,
            payload_len: "Unauthenticated".spec_bytes().len() as u32,
        },
        "Unauthenticated".spec_bytes(),
    )
}

/// Builds the final fatal reply the server sends when an unauthenticated
/// connection submits a gated opcode.
pub fn build_unauthorized_response(message_id: u8) -> (v: Vec<u8>)
    ensures
        v@ == spec_unauthorized_reply(message_id),
{
    let reason = "Unauthenticated".as_bytes();
    proof {
        reveal_strlit("Unauthenticated");
        assert(vstd::string::is_ascii("Unauthenticated"));
        vstd::utf8::is_ascii_chars_encode_utf8("Unauthenticated"@);
    }
    let header = WsmHeader::with_reserved(
        OPCODE_ERROR_FATAL,
        message_id,
        PayloadType::Raw,
        reason.len() as u32,
        RESERVED_FINAL_FLAG,
    );
    crate::header::encode_frame(&header, reason)
}

/// The client's opening move: the auth request carrying the configured
/// token, under a freshly allocated message id, or id 0 when none is free.
pub fn build_auth_request(pool: &mut crate::msg_id::IdPool, token: &[u8]) -> (v: Vec<u8>)
    requires
        old(pool).wf(),
        token@.len() <= 0xFFFF_FFFF,
    ensures
        final(pool).wf(),
        v@ == spec_frame(
            WsmHeader {
                opcode: OPCODE_AUTH,
                message_id: v@[1],
                payload_type: 0x03,
                reserved: 0,
                payload_len: token@.len() as u32,
            },
            token@,
        ),
        old(pool).spec_size() < 256 ==> crate::msg_id::spec_allocates(
            *old(pool),
            *final(pool),
            v@[1],
        ),
        old(pool).spec_size() == 256 ==> v@[1] == 0 && *final(pool) == *old(pool),
{
    let message_id = match pool.allocate() {
        Some(id) => id,
        None => 0,
    };
    let header = WsmHeader::new(OPCODE_AUTH, message_id, PayloadType::Raw, token.len() as u32);
    let v = crate::header::encode_frame(&header, token);
    proof {
        assert(v@[1] == message_id);
    }
    v
}

/// The client's reading of a generic reply while unauthenticated: a final
/// reply with no payload announces success and flips the state; a final
/// reply with a payload is a rejection whose reason is the payload text, and
/// the caller stops reconnecting; a non-final reply is no auth answer.
/// The state never moves back.
pub fn handle_auth_response(state: &mut AuthState, header: &WsmHeader) -> (r: AuthResponseOutcome)
    ensures
        r == AuthResponseOutcome::Success <==> header.spec_is_final() && header.payload_len == 0,
        r == AuthResponseOutcome::Failure <==> header.spec_is_final() && header.payload_len != 0,
        r == AuthResponseOutcome::Success ==> *final(state) == AuthState::Authenticated,
        r != AuthResponseOutcome::Success ==> *final(state) == *old(state),
        *old(state) == AuthState::Authenticated ==> *final(state) == AuthState::Authenticated,
    {
    if header.is_final() {
        if header.payload_len == 0 {
            *state = AuthState::Authenticated;
            AuthResponseOutcome::Success
        } else {
            AuthResponseOutcome::Failure
        }
    } else {
        AuthResponseOutcome::Ignored
    }
}

} // verus!
