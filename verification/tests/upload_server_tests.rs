use anchr::header::WsmHeader;
use anchr::upload::{PreparationResult, UploadMetadata};
use anchr::upload_server::{
    chunk_data_decision, chunk_data_reply, finalize_reply, handle_chunk_inquiry, init_reply,
    match_worker_hello, prepare_decision, worker_alloc_reply, worker_route, PendingChunks,
    PrepareOutcome, SessionTable, WorkerOp,
};

fn meta(hash: &str) -> UploadMetadata {
    UploadMetadata {
        target_dir: "/vol/dir".to_string(),
        file_name: "file.bin".to_string(),
        file_size: 1_048_576,
        file_hash: hash.to_string(),
    }
}

#[test]
fn preparation_decision_table() {
    // Final file present: rejected, whatever else is on disk.
    assert_eq!(prepare_decision(true, true, Some("h"), "h"), PrepareOutcome::AlreadyExists);
    // Lock present, stored hash matches after trimming: resumable.
    assert_eq!(prepare_decision(false, true, Some("abc\n"), "abc"), PrepareOutcome::Resumable);
    assert_eq!(prepare_decision(false, true, Some("  abc  "), "abc"), PrepareOutcome::Resumable);
    // Lock present, different content: stale, clean and recreate.
    assert_eq!(prepare_decision(false, true, Some("other"), "abc"), PrepareOutcome::Stale);
    // Lock present but the hash marker is unreadable.
    assert_eq!(prepare_decision(false, true, None, "abc"), PrepareOutcome::HashUnreadable);
    // Nothing on disk: fresh.
    assert_eq!(prepare_decision(false, false, None, "abc"), PrepareOutcome::Fresh);
}

#[test]
fn control_stream_replies() {
    assert_eq!(init_reply(9, PreparationResult::New), vec![0x00, 9, 0x03, 0x00, 1, 0, 0, 0, 1]);
    assert_eq!(
        init_reply(9, PreparationResult::Resumable),
        vec![0x00, 9, 0x03, 0x00, 1, 0, 0, 0, 2]
    );
    assert_eq!(worker_alloc_reply(5), vec![0x00, 5, 0x03, 0x00, 0, 0, 0, 0]);
    assert_eq!(finalize_reply(3, true), vec![0x00, 3, 0x03, 0xFF, 1, 0, 0, 0, 1]);
    assert_eq!(finalize_reply(3, false), vec![0x00, 3, 0x03, 0xFF, 1, 0, 0, 0, 0]);
}

#[test]
fn session_registry_round() {
    let mut sessions = SessionTable::new();
    sessions.insert(meta("aaaa"));
    sessions.insert(meta("bbbb"));
    assert!(sessions.get("aaaa").is_some());
    assert!(sessions.get("cccc").is_none());
    assert_eq!(sessions.get("bbbb").unwrap().file_size, 1_048_576);
    assert!(sessions.remove("aaaa"));
    assert!(!sessions.remove("aaaa"));
    assert!(sessions.get("aaaa").is_none());
    assert!(sessions.get("bbbb").is_some());
}

#[test]
fn worker_hello_binds_by_hash() {
    let mut sessions = SessionTable::new();
    sessions.insert(meta("deadbeef"));
    let hello = WsmHeader::from_bytes(&[0x11, 0, 0x03, 0x00, 8, 0, 0, 0]);
    let bound = match_worker_hello(&sessions, &hello, b"deadbeef");
    assert_eq!(bound.unwrap().file_hash, "deadbeef");
    assert!(match_worker_hello(&sessions, &hello, b"unknown0").is_none());
    let not_hello = WsmHeader::from_bytes(&[0x08, 0, 0x03, 0x00, 8, 0, 0, 0]);
    assert!(match_worker_hello(&sessions, &not_hello, b"deadbeef").is_none());
}

#[test]
fn worker_stream_routing() {
    assert_eq!(worker_route(0x08), WorkerOp::Inquiry);
    assert_eq!(worker_route(0x09), WorkerOp::Data);
    assert_eq!(worker_route(0x11), WorkerOp::Unexpected);
    assert_eq!(worker_route(0x00), WorkerOp::Unexpected);
}

fn inquiry_payload(chunk_id: u64, digest: &[u8]) -> Vec<u8> {
    let mut p = chunk_id.to_le_bytes().to_vec();
    p.extend_from_slice(digest);
    p
}

// SHA-256("abc")
const ABC_DIGEST: [u8; 32] = [
    0xba, 0x78, 0x16, 0xbf, 0x8f, 0x01, 0xcf, 0xea, 0x41, 0x41, 0x40, 0xde, 0x5d, 0xae, 0x22,
    0x23, 0xb0, 0x03, 0x61, 0xa3, 0x96, 0x17, 0x7a, 0x9c, 0xb4, 0x10, 0xff, 0x61, 0xf2, 0x00,
    0x15, 0xad,
];

#[test]
fn inquiry_skips_a_stored_matching_chunk() {
    let mut pending = PendingChunks::new();
    let stored: Vec<u8> = b"abc".to_vec();
    let payload = inquiry_payload(4, &ABC_DIGEST);
    let reply = handle_chunk_inquiry(&mut pending, &payload, Some(&stored));
    assert_eq!(reply, vec![0x00, 0, 0x03, 0xFF, 1, 0, 0, 0, 2], "skip, final");
}

#[test]
fn inquiry_asks_for_a_missing_or_differing_chunk() {
    let mut pending = PendingChunks::new();
    // No chunk on disk.
    let payload = inquiry_payload(4, &ABC_DIGEST);
    let reply = handle_chunk_inquiry(&mut pending, &payload, None);
    assert_eq!(reply, vec![0x00, 0, 0x03, 0x00, 1, 0, 0, 0, 1], "load, not final");
    // A chunk with other content is not skipped either.
    let mut pending2 = PendingChunks::new();
    let other: Vec<u8> = b"abd".to_vec();
    let reply2 = handle_chunk_inquiry(&mut pending2, &payload, Some(&other));
    assert_eq!(reply2, vec![0x00, 0, 0x03, 0x00, 1, 0, 0, 0, 1]);
}

#[test]
fn chunk_data_is_verified_against_the_announced_hash() {
    let mut pending = PendingChunks::new();
    let inquiry = inquiry_payload(4, &ABC_DIGEST);
    handle_chunk_inquiry(&mut pending, &inquiry, None);

    // The right bytes are accepted...
    let mut data_payload = 4u64.to_le_bytes().to_vec();
    data_payload.extend_from_slice(b"abc");
    assert!(chunk_data_decision(&mut pending, &data_payload));

    // ...and the record is consumed: the same chunk needs a new inquiry.
    assert!(!chunk_data_decision(&mut pending, &data_payload));
}

#[test]
fn chunk_data_with_wrong_bytes_or_no_inquiry_is_refused() {
    let mut pending = PendingChunks::new();
    let inquiry = inquiry_payload(4, &ABC_DIGEST);
    handle_chunk_inquiry(&mut pending, &inquiry, None);
    let mut wrong = 4u64.to_le_bytes().to_vec();
    wrong.extend_from_slice(b"abX");
    assert!(!chunk_data_decision(&mut pending, &wrong), "mismatched bytes are refused");

    let mut pending2 = PendingChunks::new();
    let mut unannounced = 9u64.to_le_bytes().to_vec();
    unannounced.extend_from_slice(b"abc");
    assert!(!chunk_data_decision(&mut pending2, &unannounced), "no pending inquiry");
}

#[test]
fn chunk_data_reply_flags() {
    assert_eq!(chunk_data_reply(true), vec![0x00, 0, 0x03, 0xFF, 0, 0, 0, 0]);
    assert_eq!(chunk_data_reply(false), vec![0x00, 0, 0x03, 0x00, 0, 0, 0, 0]);
}
