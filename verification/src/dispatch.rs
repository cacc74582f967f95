//! Per-endpoint routing of incoming frames.
//!
//! Both dispatchers look at one header at a time; the surrounding loop reads
//! the payload and performs whatever i/o the routed handler asks for. The
//! server's router arms the authentication gate: an unauthenticated peer
//! reaches nothing but PING and the auth request. The client's router
//! implements the tie-break on generic replies: a reply carrying the upload
//! context's message id belongs to the upload, everything else falls back to
//! the auth answer or is discarded.

use crate::auth::{spec_gate_allows, AuthState};
use crate::header::{
    spec_frame, PayloadType, WsmHeader, OPCODE_AUTH, OPCODE_ERROR_FATAL, OPCODE_FINALIZE,
    OPCODE_LIST_REQUEST, OPCODE_LIST_RESPONSE, OPCODE_PING, OPCODE_PONG, OPCODE_REPLY,
    OPCODE_UPLOAD_INIT, OPCODE_WORKER_ALLOC, RESERVED_FINAL_FLAG,
};
use crate::upload_client::UploadContext;
use vstd::prelude::*;

verus! {

/// Where the server sends a frame arriving on the control stream.
#[derive(Debug, Clone, Copy, PartialEq, Eq, Structural)]
pub enum ServerRoute {
    /// The barrier refused the opcode: answer with the fatal reply and
    /// drop the connection.
    Denied,
    /// Answer with a PONG.
    Ping,
    /// Run the token handshake.
    Auth,
    /// Answer with the volume list.
    ListRequest,
    /// Prepare an upload destination.
    UploadInit,
    /// Acknowledge a worker-allocation request.
    WorkerAlloc,
    /// Assemble and verify a finished upload.
    Finalize,
    /// Log and drop the frame.
    Unknown,
}

/// Routes an opcode on the server's control stream, honouring the
/// authentication gate.
pub fn route_server(state: AuthState, opcode: u8) -> (r: ServerRoute)
    ensures
        r == ServerRoute::Denied <==> !spec_gate_allows(state, opcode),
        r == ServerRoute::Ping <==> opcode == OPCODE_PING,
        r == ServerRoute::Auth <==> opcode == OPCODE_AUTH,
        r == ServerRoute::ListRequest <==> (spec_gate_allows(state, opcode) && opcode
            == OPCODE_LIST_REQUEST),
        r == ServerRoute::UploadInit <==> (spec_gate_allows(state, opcode) && opcode
            == OPCODE_UPLOAD_INIT),
        r == ServerRoute::WorkerAlloc <==> (spec_gate_allows(state, opcode) && opcode
            == OPCODE_WORKER_ALLOC),
        r == ServerRoute::Finalize <==> (spec_gate_allows(state, opcode) && opcode
            == OPCODE_FINALIZE),
{
    if !crate::auth::gate_allows(state, opcode) {
        ServerRoute::Denied
    } else if opcode == OPCODE_PING {
        ServerRoute::Ping
    } else if opcode == OPCODE_AUTH {
        ServerRoute::Auth
    } else if opcode == OPCODE_LIST_REQUEST {
        ServerRoute::ListRequest
    } else if opcode == OPCODE_UPLOAD_INIT {
        ServerRoute::UploadInit
    } else if opcode == OPCODE_WORKER_ALLOC {
        ServerRoute::WorkerAlloc
    } else if opcode == OPCODE_FINALIZE {
        ServerRoute::Finalize
    } else {
        ServerRoute::Unknown
    }
}

/// The volume-list answer: the serialized list as a final JSON frame.
pub fn build_list_response(message_id: u8, json_payload: &[u8]) -> (v: Vec<u8>)
    requires
        json_payload@.len() <= 0xFFFF_FFFF,
    ensures
        v@ == spec_frame(
            WsmHeader {
                opcode: OPCODE_LIST_RESPONSE,
                message_id,
                payload_type: 0x01,
                reserved: RESERVED_FINAL_FLAG,
                payload_len: json_payload@.len() as u32,
            },
            json_payload@,
        ),
{
    let header = WsmHeader::with_reserved(
        OPCODE_LIST_RESPONSE,
        message_id,
        PayloadType::Json,
        json_payload.len() as u32,
        RESERVED_FINAL_FLAG,
    );
    crate::header::encode_frame(&header, json_payload)
}

/// Where the client sends a frame arriving on the control stream.
#[derive(Debug, Clone, Copy, PartialEq, Eq, Structural)]
pub enum ClientRoute {
    /// A generic reply carrying the upload context's current message id:
    /// the context's state decides what it means.
    UploadReply,
    /// A generic reply while unauthenticated: the auth answer.
    AuthReply,
    /// A generic reply with nothing waiting for it: release the id and drop
    /// it.
    DiscardAck,
    /// A PONG: clear the in-flight entry.
    Pong,
    /// The volume list.
    ListResponse,
    /// A fatal error: surface the reason, stop reconnecting, close.
    Fatal,
    /// Log and drop the frame.
    Unknown,
}

/// Routes a header on the client's control stream. A generic reply is
/// claimed by the upload context exactly when its message id matches;
/// otherwise it is the auth answer while unauthenticated, and a stray
/// acknowledgement after that.
pub fn route_client(header: &WsmHeader, ctx: &Option<UploadContext>, auth: AuthState) -> (r:
    ClientRoute)
    ensures
        r == ClientRoute::UploadReply <==> (header.opcode == OPCODE_REPLY && (
        (*ctx) matches Some(c) && c.message_id == header.message_id)),
        r == ClientRoute::AuthReply <==> (header.opcode == OPCODE_REPLY && !((*ctx) matches Some(c)
            && c.message_id == header.message_id) && auth == AuthState::Unauthenticated),
        r == ClientRoute::DiscardAck <==> (header.opcode == OPCODE_REPLY && !((*ctx) matches Some(
            c,
        ) && c.message_id == header.message_id) && auth == AuthState::Authenticated),
        r == ClientRoute::Pong <==> header.opcode == OPCODE_PONG,
        r == ClientRoute::ListResponse <==> header.opcode == OPCODE_LIST_RESPONSE,
        r == ClientRoute::Fatal <==> header.opcode == OPCODE_ERROR_FATAL,
{
    if header.opcode == OPCODE_REPLY {
        let claimed = match ctx {
            Some(c) => c.message_id == header.message_id,
            None => false,
        };
        if claimed {
            ClientRoute::UploadReply
        } else if matches!(auth, AuthState::Unauthenticated) {
            ClientRoute::AuthReply
        } else {
            ClientRoute::DiscardAck
        }
    } else if header.opcode == OPCODE_PONG {
        ClientRoute::Pong
    } else if header.opcode == OPCODE_LIST_RESPONSE {
        ClientRoute::ListResponse
    } else if header.opcode == OPCODE_ERROR_FATAL {
        ClientRoute::Fatal
    } else {
        ClientRoute::Unknown
    }
}

} // verus!
