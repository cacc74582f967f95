//! Shared upload vocabulary: the metadata both endpoints exchange, the
//! client context's states, the server's preparation verdict, and the chunk
//! arithmetic everything is keyed to.
//!
//! A file is cut into fixed 512 KiB chunks; the last one may be short. Both
//! endpoints derive the same chunk count and spans from the file size alone.

use vstd::prelude::*;

verus! {

/// Size of one upload chunk, in bytes.
pub const CHUNK_SIZE: u64 = 512 * 1024;

/// What an upload is: where it goes, what it is called, how large it is and
/// the lowercase-hex SHA-256 of its whole content.
#[derive(Debug, Clone)]
pub struct UploadMetadata {
    pub target_dir: String,
    pub file_name: String,
    pub file_size: u64,
    pub file_hash: String,
}

/// The client context's position in the upload exchange.
#[derive(Debug, Clone, Copy, PartialEq, Eq, Structural)]
pub enum UploadState {
    Initiated,
    WorkersOpening,
    Streaming,
    Finishing,
}

/// The server's verdict when preparing an upload destination.
#[derive(Debug, Clone, Copy, PartialEq, Eq, Structural)]
pub enum PreparationResult {
    /// Nothing usable was on disk; markers were created afresh.
    New,
    /// Markers for the same content were found; stored chunks may be reused.
    Resumable,
}

/// Number of chunks a file of `size` bytes is cut into: `size / CHUNK_SIZE`,
/// rounded up.
pub open spec fn spec_chunk_count(size: u64) -> int {
    size / CHUNK_SIZE + if size % CHUNK_SIZE != 0 {
        1int
    } else {
        0int
    }
}

/// The chunk count is the least number of chunks that covers the file.
pub proof fn lemma_chunk_count_ceil(size: u64)
    ensures
        size <= spec_chunk_count(size) * CHUNK_SIZE,
        size > 0 ==> (spec_chunk_count(size) - 1) * CHUNK_SIZE < size,
        spec_chunk_count(size) == 0 <==> size == 0,
{
    let c = CHUNK_SIZE as int;
    let q = size / CHUNK_SIZE;
    let r = size % CHUNK_SIZE;
    assert(size == q * c + r && 0 <= r < c) by (nonlinear_arith)
        requires
            c == CHUNK_SIZE as int,
            q == size / CHUNK_SIZE,
            r == size % CHUNK_SIZE,
    ;
    if r != 0 {
        assert((q + 1) * c == q * c + c) by (nonlinear_arith);
    }
    if size > 0 && r == 0 {
        assert((q - 1) * c == q * c - c) by (nonlinear_arith);
    }
}

/// Computes the chunk count of a file.
pub fn chunk_count(size: u64) -> (n: u64)
    ensures
        n == spec_chunk_count(size),
{
    proof {
        lemma_chunk_count_ceil(size);
    }
    size / CHUNK_SIZE + if size % CHUNK_SIZE != 0 {
        1
    } else {
        0
    }
}

/// The byte span of one chunk: its offset in the file and its length, which
/// is a full `CHUNK_SIZE` for every chunk but possibly the last.
pub fn chunk_span(size: u64, chunk_id: u64) -> (span: (u64, u64))
    requires
        chunk_id < spec_chunk_count(size),
    ensures
        span.0 == chunk_id * CHUNK_SIZE,
        span.1 == if size - span.0 < CHUNK_SIZE {
            size - span.0
        } else {
            CHUNK_SIZE as int
        },
        span.0 < size,
        0 < span.1 <= CHUNK_SIZE,
        span.0 + span.1 <= size,
{
    proof {
        lemma_chunk_count_ceil(size);
        let c = CHUNK_SIZE as int;
        let n = spec_chunk_count(size);
        assert(chunk_id * c <= (n - 1) * c) by (nonlinear_arith)
            requires
                chunk_id <= n - 1,
                c > 0,
        ;
    }
    let offset = chunk_id * CHUNK_SIZE;
    let remaining = size - offset;
    let len = if remaining < CHUNK_SIZE {
        remaining
    } else {
        CHUNK_SIZE
    };
    (offset, len)
}

} // verus!
