//! The client side of the upload subsystem: the single per-connection upload
//! context, its strictly linear state machine, and the frames the client
//! emits at each step.
//!
//! Reading the local file, hashing it and serializing the metadata happen
//! outside; this module owns the transitions, the chunk queue and the wire
//! framing, and it guarantees that at most one upload is ever in flight.

use crate::hashing::{sha256, sha256_of};
use crate::header::{
    spec_frame, PayloadType, WsmHeader, OPCODE_CHUNK_DATA, OPCODE_CHUNK_INQUIRY, OPCODE_FINALIZE,
    OPCODE_REPLY, OPCODE_UPLOAD_INIT, OPCODE_WORKER_ALLOC, OPCODE_WORKER_HELLO,
};
use crate::msg_id::{spec_allocates, IdPool};
use crate::text::spec_filename_ok;
use crate::upload::{chunk_count, spec_chunk_count, UploadMetadata, UploadState};
use std::collections::VecDeque;
use vstd::bytes::{spec_u64_to_le_bytes, u64_to_le_bytes};
use vstd::prelude::*;
use vstd::utf8::encode_utf8;

verus! {

/// The largest number of worker streams one upload opens.
pub const MAX_WORKERS: u8 = 32;

/// The client's record of the upload in flight: what is being sent, which
/// message id the current exchange runs under, where the state machine
/// stands, and the chunk bookkeeping shared by the workers.
pub struct UploadContext {
    pub metadata: UploadMetadata,
    pub local_file_path: String,
    pub message_id: u8,
    pub state: UploadState,
    pub chunk_queue: VecDeque<u64>,
    pub total_chunks: u64,
    pub completed_chunks: u64,
}

/// Why an upload could not be started.
#[derive(Debug, Clone, Copy, PartialEq, Eq, Structural)]
pub enum UploadError {
    /// Another upload is already in flight on this connection.
    Busy,
    /// The file name holds a character outside the allowed set.
    BadFileName,
    /// No message id was free.
    PoolExhausted,
}

/// Worker streams per upload: one per chunk, at least one, at most
/// `MAX_WORKERS`.
pub open spec fn spec_workers(size: u64) -> int {
    let n = spec_chunk_count(size);
    if n == 0 {
        1
    } else if n > MAX_WORKERS as int {
        MAX_WORKERS as int
    } else {
        n
    }
}

/// Computes how many worker streams an upload of `size` bytes requests.
pub fn calculate_workers(size: u64) -> (n: u8)
    ensures
        n == spec_workers(size),
        1 <= n <= MAX_WORKERS,
{
    let chunks = chunk_count(size);
    if chunks == 0 {
        1
    } else if chunks > MAX_WORKERS as u64 {
        MAX_WORKERS
    } else {
        chunks as u8
    }
}

/// Starts an upload: at most one may be in flight per connection, the file
/// name must be well-formed, and a fresh message id must be available. On
/// success the context is recorded in its initial state and the initiation
/// frame, carrying the serialized metadata, is returned for sending.
pub fn start_upload(
    pool: &mut IdPool,
    ctx: &mut Option<UploadContext>,
    metadata: UploadMetadata,
    local_file_path: String,
    json_payload: &[u8],
) -> (r: Result<Vec<u8>, UploadError>)
    requires
        old(pool).wf(),
        json_payload@.len() <= 0xFFFF_FFFF,
    ensures
        final(pool).wf(),
        r == Err::<Vec<u8>, UploadError>(UploadError::Busy) <==> (*old(ctx)) is Some,
        r == Err::<Vec<u8>, UploadError>(UploadError::BadFileName) <==> ((*old(ctx)) is None
            && !spec_filename_ok(metadata.file_name@)),
        r == Err::<Vec<u8>, UploadError>(UploadError::PoolExhausted) <==> ((*old(ctx)) is None
            && spec_filename_ok(metadata.file_name@) && old(pool).spec_size() == 256),
        r is Err ==> *final(ctx) == *old(ctx) && *final(pool) == *old(pool),
        r matches Ok(v) ==> {
            &&& (*final(ctx)) matches Some(c)
            &&& c.metadata == metadata
            &&& c.local_file_path == local_file_path
            &&& c.state == UploadState::Initiated
            &&& c.chunk_queue@ == Seq::<u64>::empty()
            &&& c.total_chunks == 0
            &&& c.completed_chunks == 0
            &&& spec_allocates(*old(pool), *final(pool), c.message_id)
            &&& v@ == spec_frame(
                WsmHeader {
                    opcode: OPCODE_UPLOAD_INIT,
                    message_id: c.message_id,
                    payload_type: 0x01,
                    reserved: 0,
                    payload_len: json_payload@.len() as u32,
                },
                json_payload@,
            )
        },
{
    if ctx.is_some() {
        return Err(UploadError::Busy);
    }
    if !crate::text::filename_ok(metadata.file_name.as_str()) {
        return Err(UploadError::BadFileName);
    }
    let message_id = match pool.allocate() {
        Some(id) => id,
        None => {
            return Err(UploadError::PoolExhausted);
        },
    };
    let header = WsmHeader::new(
        OPCODE_UPLOAD_INIT,
        message_id,
        PayloadType::Json,
        json_payload.len() as u32,
    );
    let frame = crate::header::encode_frame(&header, json_payload);
    *ctx = Some(
        UploadContext {
            metadata,
            local_file_path,
            message_id,
            state: UploadState::Initiated,
            chunk_queue: VecDeque::new(),
            total_chunks: 0,
            completed_chunks: 0,
        },
    );
    Ok(frame)
}

/// The client's step after the server acknowledged the initiation: request
/// worker streams under a fresh message id and move to `WorkersOpening`.
/// Does nothing unless an upload is waiting in `Initiated`; clears the
/// context when no message id is free.
pub fn on_init_ack(pool: &mut IdPool, ctx: &mut Option<UploadContext>) -> (r: Option<Vec<u8>>)
    requires
        old(pool).wf(),
    ensures
        final(pool).wf(),
        !((*old(ctx)) matches Some(c) && c.state == UploadState::Initiated) ==> (r is None
            && *final(ctx) == *old(ctx) && *final(pool) == *old(pool)),
        ((*old(ctx)) matches Some(c) && c.state == UploadState::Initiated && old(pool).spec_size()
            == 256) ==> r is None && (*final(ctx)) is None && *final(pool) == *old(pool),
        ((*old(ctx)) matches Some(c) && c.state == UploadState::Initiated && old(pool).spec_size()
            < 256) ==> r is Some,
        r matches Some(v) ==> {
            &&& (*old(ctx)) matches Some(c)
            &&& c.state == UploadState::Initiated
            &&& (*final(ctx)) matches Some(c2)
            &&& c2.state == UploadState::WorkersOpening
            &&& c2.metadata == c.metadata
            &&& c2.local_file_path == c.local_file_path
            &&& c2.chunk_queue@ == c.chunk_queue@
            &&& c2.total_chunks == c.total_chunks
            &&& c2.completed_chunks == c.completed_chunks
            &&& spec_allocates(*old(pool), *final(pool), c2.message_id)
            &&& v@ == spec_frame(
                WsmHeader {
                    opcode: OPCODE_WORKER_ALLOC,
                    message_id: c2.message_id,
                    payload_type: 0x03,
                    reserved: 0,
                    payload_len: 1,
                },
                seq![spec_workers(c.metadata.file_size) as u8],
            )
        },
{
    match ctx.as_mut() {
        None => None,
        Some(c) => {
            if !matches!(c.state, UploadState::Initiated) {
                return None;
            }
            let num_workers = calculate_workers(c.metadata.file_size);
            match pool.allocate() {
                None => {
                    *ctx = None;
                    None
                },
                Some(message_id) => {
                    c.state = UploadState::WorkersOpening;
                    c.message_id = message_id;
                    let header = WsmHeader::new(
                        OPCODE_WORKER_ALLOC,
                        message_id,
                        PayloadType::Raw,
                        1,
                    );
                    let mut frame = header.to_bytes();
                    frame.push(num_workers);
                    proof {
                        assert(frame@ =~= spec_frame(
                            WsmHeader {
                                opcode: OPCODE_WORKER_ALLOC,
                                message_id,
                                payload_type: 0x03,
                                reserved: 0,
                                payload_len: 1,
                            },
                            seq![spec_workers(c.metadata.file_size) as u8],
                        ));
                    }
                    Some(frame)
                },
            }
        },
    }
}

/// The ascending chunk ids `0, 1, …, n-1`.
pub open spec fn spec_chunk_ids(n: int) -> Seq<u64> {
    Seq::new(n as nat, |i: int| i as u64)
}

/// The client's step after the worker request was acknowledged: derive the
/// chunk count, queue every chunk id in ascending order, move to
/// `Streaming`, and report how many worker tasks to spawn. Does nothing
/// unless an upload is waiting in `WorkersOpening`.
pub fn on_worker_ack(ctx: &mut Option<UploadContext>) -> (r: Option<u8>)
    ensures
        !((*old(ctx)) matches Some(c) && c.state == UploadState::WorkersOpening) ==> (r is None
            && *final(ctx) == *old(ctx)),
        ((*old(ctx)) matches Some(c) && c.state == UploadState::WorkersOpening) ==> r is Some,
        r matches Some(n) ==> {
            &&& (*old(ctx)) matches Some(c)
            &&& c.state == UploadState::WorkersOpening
            &&& n == spec_workers(c.metadata.file_size)
            &&& (*final(ctx)) matches Some(c2)
            &&& c2.state == UploadState::Streaming
            &&& c2.metadata == c.metadata
            &&& c2.local_file_path == c.local_file_path
            &&& c2.message_id == c.message_id
            &&& c2.total_chunks == spec_chunk_count(c.metadata.file_size)
            &&& c2.chunk_queue@ == spec_chunk_ids(spec_chunk_count(c.metadata.file_size))
            &&& c2.completed_chunks == c.completed_chunks
        },
{
    match ctx.as_mut() {
        None => None,
        Some(c) => {
            if !matches!(c.state, UploadState::WorkersOpening) {
                return None;
            }
            let num_workers = calculate_workers(c.metadata.file_size);
            let total = chunk_count(c.metadata.file_size);
            let mut queue: VecDeque<u64> = VecDeque::new();
            let mut i: u64 = 0;
            while i < total
                invariant
                    i <= total,
                    queue@ =~= spec_chunk_ids(i as int),
                decreases total - i,
            {
                queue.push_back(i);
                proof {
                    assert(queue@ =~= spec_chunk_ids(i + 1));
                }
                i = i + 1;
            }
            c.state = UploadState::Streaming;
            c.total_chunks = total;
            c.chunk_queue = queue;
            Some(num_workers)
        },
    }
}

/// A worker takes the next chunk off the shared queue; none left means the
/// worker is done.
pub fn pop_chunk(ctx: &mut Option<UploadContext>) -> (r: Option<u64>)
    ensures
        (*old(ctx)) is None ==> r is None && *final(ctx) == *old(ctx),
        (*old(ctx)) matches Some(c) ==> {
            &&& (*final(ctx)) matches Some(c2)
            &&& c2.metadata == c.metadata
            &&& c2.local_file_path == c.local_file_path
            &&& c2.message_id == c.message_id
            &&& c2.state == c.state
            &&& c2.total_chunks == c.total_chunks
            &&& c2.completed_chunks == c.completed_chunks
            &&& match r {
                Some(id) => c.chunk_queue@.len() > 0 && id == c.chunk_queue@[0]
                    && c2.chunk_queue@ == c.chunk_queue@.drop_first(),
                None => c.chunk_queue@.len() == 0 && c2.chunk_queue@ == c.chunk_queue@,
            }
        },
{
    match ctx.as_mut() {
        None => None,
        Some(c) => {
            let r = c.chunk_queue.pop_front();
            proof {
                if (*old(ctx))->Some_0.chunk_queue@.len() > 0 {
                    assert(c.chunk_queue@ =~= (*old(ctx))->Some_0.chunk_queue@.drop_first());
                }
            }
            r
        },
    }
}

/// The first frame on a worker stream: the hello that binds it to the
/// upload, carrying the file hash spelled in UTF-8.
pub fn build_worker_hello(file_hash: &str) -> (v: Vec<u8>)
    requires
        encode_utf8(file_hash@).len() <= 0xFFFF_FFFF,
    ensures
        v@ == spec_frame(
            WsmHeader {
                opcode: OPCODE_WORKER_HELLO,
                message_id: 0,
                payload_type: 0x03,
                reserved: 0,
                payload_len: encode_utf8(file_hash@).len() as u32,
            },
            encode_utf8(file_hash@),
        ),
{
    let payload = file_hash.as_bytes();
    let header = WsmHeader::new(OPCODE_WORKER_HELLO, 0, PayloadType::Raw, payload.len() as u32);
    crate::header::encode_frame(&header, payload)
}

/// A chunk inquiry: the chunk id followed by the SHA-256 of the chunk's
/// bytes, which this function computes itself.
pub fn build_chunk_inquiry(chunk_id: u64, chunk_data: &[u8]) -> (v: Vec<u8>)
    ensures
        v@ == spec_frame(
            WsmHeader {
                opcode: OPCODE_CHUNK_INQUIRY,
                message_id: 0,
                payload_type: 0x03,
                reserved: 0,
                payload_len: 40,
            },
            spec_u64_to_le_bytes(chunk_id) + sha256_of(chunk_data@),
        ),
{
    let digest = sha256(chunk_data);
    let header = WsmHeader::new(OPCODE_CHUNK_INQUIRY, 0, PayloadType::Raw, 40);
    let mut v = header.to_bytes();
    let mut id_bytes = u64_to_le_bytes(chunk_id);
    v.append(&mut id_bytes);
    let mut digest_bytes = digest;
    v.append(&mut digest_bytes);
    proof {
        assert(v@ =~= spec_frame(
            WsmHeader {
                opcode: OPCODE_CHUNK_INQUIRY,
                message_id: 0,
                payload_type: 0x03,
                reserved: 0,
                payload_len: 40,
            },
            spec_u64_to_le_bytes(chunk_id) + sha256_of(chunk_data@),
        ));
    }
    v
}

/// What the server told a worker to do with a chunk.
#[derive(Debug, Clone, Copy, PartialEq, Eq, Structural)]
pub enum ChunkDirective {
    /// Send the chunk's bytes.
    Load,
    /// The chunk is already stored; count it as done.
    Skip,
    /// Not a well-formed inquiry answer.
    Unknown,
}

/// Reads the server's answer to a chunk inquiry: it must be a generic reply
/// carrying exactly one byte, 1 to load and 2 to skip.
pub fn interpret_inquiry_reply(header: &WsmHeader, code: u8) -> (r: ChunkDirective)
    ensures
        r == ChunkDirective::Load <==> (header.opcode == OPCODE_REPLY && header.payload_len == 1
            && code == 1),
        r == ChunkDirective::Skip <==> (header.opcode == OPCODE_REPLY && header.payload_len == 1
            && code == 2),
{
    if header.opcode == OPCODE_REPLY && header.payload_len == 1 {
        if code == 1 {
            ChunkDirective::Load
        } else if code == 2 {
            ChunkDirective::Skip
        } else {
            ChunkDirective::Unknown
        }
    } else {
        ChunkDirective::Unknown
    }
}

/// A chunk-data frame: the chunk id followed by the chunk's raw bytes.
pub fn build_chunk_data(chunk_id: u64, chunk_data: &[u8]) -> (v: Vec<u8>)
    requires
        chunk_data@.len() + 8 <= 0xFFFF_FFFF,
    ensures
        v@ == spec_frame(
            WsmHeader {
                opcode: OPCODE_CHUNK_DATA,
                message_id: 0,
                payload_type: 0x03,
                reserved: 0,
                payload_len: (chunk_data@.len() + 8) as u32,
            },
            spec_u64_to_le_bytes(chunk_id) + chunk_data@,
        ),
{
    let header = WsmHeader::new(
        OPCODE_CHUNK_DATA,
        0,
        PayloadType::Raw,
        (chunk_data.len() + 8) as u32,
    );
    let mut v = header.to_bytes();
    let mut id_bytes = u64_to_le_bytes(chunk_id);
    v.append(&mut id_bytes);
    v.extend_from_slice(chunk_data);
    proof {
        assert(v@ =~= spec_frame(
            WsmHeader {
                opcode: OPCODE_CHUNK_DATA,
                message_id: 0,
                payload_type: 0x03,
                reserved: 0,
                payload_len: (chunk_data@.len() + 8) as u32,
            },
            spec_u64_to_le_bytes(chunk_id) + chunk_data@,
        ));
    }
    v
}

/// A worker finished one chunk: count it, saturating at the total, and
/// report whether every chunk is now done.
pub fn on_chunk_complete(ctx: &mut Option<UploadContext>) -> (all_done: bool)
    ensures
        (*old(ctx)) is None ==> !all_done && *final(ctx) == *old(ctx),
        (*old(ctx)) matches Some(c) ==> {
            &&& (*final(ctx)) matches Some(c2)
            &&& c2.completed_chunks == (if c.completed_chunks < c.total_chunks {
                c.completed_chunks + 1
            } else {
                c.completed_chunks as int
            })
            &&& c2.metadata == c.metadata
            &&& c2.local_file_path == c.local_file_path
            &&& c2.message_id == c.message_id
            &&& c2.state == c.state
            &&& c2.chunk_queue@ == c.chunk_queue@
            &&& c2.total_chunks == c.total_chunks
            &&& (all_done <==> c2.completed_chunks >= c2.total_chunks)
        },
{
    match ctx.as_mut() {
        None => false,
        Some(c) => {
            if c.completed_chunks < c.total_chunks {
                c.completed_chunks = c.completed_chunks + 1;
            }
            c.completed_chunks >= c.total_chunks
        },
    }
}

/// After the last chunk, the finalize request: the metadata echoed as JSON
/// under a fresh message id, and the context moves to `Finishing`. Does
/// nothing unless the upload is `Streaming` with every chunk done; without
/// a free message id the context stays in `Finishing` and nothing is sent.
pub fn build_finalize_request(
    pool: &mut IdPool,
    ctx: &mut Option<UploadContext>,
    json_echo: &[u8],
) -> (r: Option<Vec<u8>>)
    requires
        old(pool).wf(),
        json_echo@.len() <= 0xFFFF_FFFF,
    ensures
        final(pool).wf(),
        !((*old(ctx)) matches Some(c) && c.state == UploadState::Streaming && c.completed_chunks
            >= c.total_chunks) ==> (r is None && *final(ctx) == *old(ctx)
            && *final(pool) == *old(pool)),
        ((*old(ctx)) matches Some(c) && c.state == UploadState::Streaming && c.completed_chunks
            >= c.total_chunks && old(pool).spec_size() < 256) ==> r is Some,
        r matches Some(v) ==> {
            &&& (*old(ctx)) matches Some(c)
            &&& c.state == UploadState::Streaming
            &&& c.completed_chunks >= c.total_chunks
            &&& (*final(ctx)) matches Some(c2)
            &&& c2.state == UploadState::Finishing
            &&& c2.metadata == c.metadata
            &&& spec_allocates(*old(pool), *final(pool), c2.message_id)
            &&& v@ == spec_frame(
                WsmHeader {
                    opcode: OPCODE_FINALIZE,
                    message_id: c2.message_id,
                    payload_type: 0x01,
                    reserved: 0,
                    payload_len: json_echo@.len() as u32,
                },
                json_echo@,
            )
        },
{
    match ctx.as_mut() {
        None => None,
        Some(c) => {
            if !matches!(c.state, UploadState::Streaming) {
                return None;
            }
            if c.completed_chunks < c.total_chunks {
                return None;
            }
            c.state = UploadState::Finishing;
            match pool.allocate() {
                None => None,
                Some(message_id) => {
                    c.message_id = message_id;
                    let header = WsmHeader::new(
                        OPCODE_FINALIZE,
                        message_id,
                        PayloadType::Json,
                        json_echo.len() as u32,
                    );
                    Some(crate::header::encode_frame(&header, json_echo))
                },
            }
        },
    }
}

/// How the upload ended, read from the server's final reply.
#[derive(Debug, Clone, Copy, PartialEq, Eq, Structural)]
pub enum FinalizeOutcome {
    /// The server assembled and verified the file.
    Success,
    /// The server reported a finalization failure.
    Failure,
    /// The reply did not carry the expected one-byte payload.
    Invalid,
}

/// The client's reading of the finalize answer: one byte, 1 for success,
/// anything else for failure; a reply without that byte is invalid. The
/// upload is over either way: the context is cleared.
pub fn on_finalize_reply(ctx: &mut Option<UploadContext>, code: Option<u8>) -> (r: FinalizeOutcome)
    ensures
        (*final(ctx)) is None,
        r == FinalizeOutcome::Success <==> code == Some(1u8),
        r == FinalizeOutcome::Invalid <==> code is None,
        r == FinalizeOutcome::Failure <==> (code matches Some(b) && b != 1),
{
    *ctx = None;
    match code {
        None => FinalizeOutcome::Invalid,
        Some(b) => {
            if b == 1 {
                FinalizeOutcome::Success
            } else {
                FinalizeOutcome::Failure
            }
        },
    }
}

} // verus!
