//! End-to-end walks of the protocol core, both endpoints in one process,
//! with the transport replaced by handing the frames across directly.

use anchr::auth::AuthState;
use anchr::dispatch::{build_list_response, route_client, route_server, ClientRoute, ServerRoute};
use anchr::finalize::{assemble_and_check, assemble_chunks};
use anchr::hashing::content_hash;
use anchr::header::WsmHeader;
use anchr::msg_id::IdPool;
use anchr::upload::{chunk_count, chunk_span, PreparationResult, UploadMetadata};
use anchr::upload_client::{
    build_chunk_data, build_chunk_inquiry, build_finalize_request, build_worker_hello,
    interpret_inquiry_reply, on_chunk_complete, on_finalize_reply, on_init_ack, on_worker_ack,
    pop_chunk, start_upload, ChunkDirective, FinalizeOutcome,
};
use anchr::upload_server::{
    chunk_data_decision, chunk_data_reply, finalize_reply, handle_chunk_inquiry, init_reply,
    match_worker_hello, prepare_decision, PendingChunks, PrepareOutcome, SessionTable,
};

#[test]
fn empty_volume_list_reply() {
    // A server with no volumes answers a list request with the final JSON
    // frame {0x04, id, 0x01, 0xFF, len=2, "[]"}.
    let reply = build_list_response(0x0A, b"[]");
    assert_eq!(reply, vec![0x04, 0x0A, 0x01, 0xFF, 2, 0, 0, 0, b'[', b']']);
    let header = WsmHeader::from_bytes(&reply[0..8]);
    let ctx = None;
    assert_eq!(route_client(&header, &ctx, AuthState::Authenticated), ClientRoute::ListResponse);
}

#[test]
fn reply_tie_break_prefers_the_upload_context() {
    let mut pool = IdPool::new();
    let mut ctx = None;
    let meta = UploadMetadata {
        target_dir: "/v/d".to_string(),
        file_name: "f".to_string(),
        file_size: 10,
        file_hash: "00".repeat(32),
    };
    start_upload(&mut pool, &mut ctx, meta, "f".to_string(), b"{}").unwrap();
    let id = ctx.as_ref().unwrap().message_id;
    let matching = WsmHeader::from_bytes(&[0x00, id, 0x03, 0x00, 1, 0, 0, 0]);
    assert_eq!(route_client(&matching, &ctx, AuthState::Authenticated), ClientRoute::UploadReply);
    let other_id = id.wrapping_add(1);
    let stray = WsmHeader::from_bytes(&[0x00, other_id, 0x03, 0x00, 0, 0, 0, 0]);
    assert_eq!(route_client(&stray, &ctx, AuthState::Authenticated), ClientRoute::DiscardAck);
    assert_eq!(route_client(&stray, &ctx, AuthState::Unauthenticated), ClientRoute::AuthReply);
    let pong = WsmHeader::from_bytes(&[0x02, 3, 0x03, 0xFF, 0, 0, 0, 0]);
    assert_eq!(route_client(&pong, &ctx, AuthState::Authenticated), ClientRoute::Pong);
    let fatal = WsmHeader::from_bytes(&[0xFF, 3, 0x03, 0xFF, 0, 0, 0, 0]);
    assert_eq!(route_client(&fatal, &ctx, AuthState::Authenticated), ClientRoute::Fatal);
}

#[test]
fn assembly_joins_chunks_in_order() {
    let chunks = vec![b"hello ".to_vec(), b"world".to_vec()];
    assert_eq!(assemble_chunks(&chunks), b"hello world");
    // SHA-256("hello world")
    let good = "b94d27b9934d3e08a52e52d7da7dabfac484efe37a5380ee9088f7ace2efcde9";
    let assembled = assemble_and_check(&chunks, good).expect("matching hash is accepted");
    assert_eq!(assembled, b"hello world");
    assert!(assemble_and_check(&chunks, "ffff").is_none(), "a mismatch yields no file");
    // Order matters: swapped chunks hash differently.
    let swapped = vec![b"world".to_vec(), b"hello ".to_vec()];
    assert!(assemble_and_check(&swapped, good).is_none());
}

/// A deterministic pseudo-random file body.
fn test_file(len: usize) -> Vec<u8> {
    let mut v = Vec::with_capacity(len);
    let mut x: u32 = 0x1234_5678;
    for _ in 0..len {
        x = x.wrapping_mul(1_664_525).wrapping_add(1_013_904_223);
        v.push((x >> 24) as u8);
    }
    v
}

#[test]
fn one_mebibyte_upload_end_to_end() {
    // A fresh 1 MiB upload: two chunks, two workers, every frame handed
    // straight from one endpoint to the other.
    let file = test_file(1_048_576);
    let file_hash = content_hash(&file);
    let meta = UploadMetadata {
        target_dir: "/vol/data".to_string(),
        file_name: "big.bin".to_string(),
        file_size: file.len() as u64,
        file_hash: file_hash.clone(),
    };

    // Client initiates.
    let mut pool = IdPool::new();
    let mut ctx = None;
    let json = b"{\"file\":\"big.bin\"}";
    let init_frame =
        start_upload(&mut pool, &mut ctx, meta.clone(), "./big.bin".to_string(), json).unwrap();
    let init_header = WsmHeader::from_bytes(&init_frame[0..8]);
    assert_eq!(init_header.opcode, 0x06);

    // Server routes it, prepares a fresh destination and registers the
    // session.
    assert_eq!(route_server(AuthState::Authenticated, init_header.opcode), ServerRoute::UploadInit);
    assert_eq!(prepare_decision(false, false, None, &file_hash), PrepareOutcome::Fresh);
    let mut sessions = SessionTable::new();
    sessions.insert(meta.clone());
    let ack = init_reply(init_header.message_id, PreparationResult::New);
    assert_eq!(ack[8], 1, "a fresh upload is acknowledged with code 1");

    // Client asks for workers; server acknowledges.
    let worker_req = on_init_ack(&mut pool, &mut ctx).unwrap();
    assert_eq!(worker_req[8], 2, "1 MiB asks for two workers");
    let workers = on_worker_ack(&mut ctx).unwrap();
    assert_eq!(workers, 2);
    assert_eq!(ctx.as_ref().unwrap().total_chunks, 2);
    assert_eq!(chunk_count(meta.file_size), 2);

    // Each worker stream starts with the hello and is bound by the hash.
    let hello = build_worker_hello(&file_hash);
    let hello_header = WsmHeader::from_bytes(&hello[0..8]);
    let bound = match_worker_hello(&sessions, &hello_header, &hello[8..]).unwrap();
    assert_eq!(bound.file_name, "big.bin");

    // The workers drain the queue; the server stores each verified chunk.
    let mut pending = PendingChunks::new();
    let mut stored: Vec<Option<Vec<u8>>> = vec![None, None];
    while let Some(chunk_id) = pop_chunk(&mut ctx) {
        let (offset, len) = chunk_span(meta.file_size, chunk_id);
        let data = &file[offset as usize..(offset + len) as usize];

        let inquiry = build_chunk_inquiry(chunk_id, data);
        let inquiry_header = WsmHeader::from_bytes(&inquiry[0..8]);
        assert_eq!(inquiry_header.opcode, 0x08);
        let reply = handle_chunk_inquiry(&mut pending, &inquiry[8..], None);
        let reply_header = WsmHeader::from_bytes(&reply[0..8]);
        assert_eq!(interpret_inquiry_reply(&reply_header, reply[8]), ChunkDirective::Load);

        let data_frame = build_chunk_data(chunk_id, data);
        let accept = chunk_data_decision(&mut pending, &data_frame[8..]);
        assert!(accept, "the announced hash matches the sent bytes");
        stored[chunk_id as usize] = Some(data.to_vec());
        let ack = chunk_data_reply(accept);
        assert!(WsmHeader::from_bytes(&ack[0..8]).is_final());
        on_chunk_complete(&mut ctx);
    }
    assert_eq!(ctx.as_ref().unwrap().completed_chunks, 2);

    // Finalize: the server assembles both chunks and verifies the hash.
    let fin_frame = build_finalize_request(&mut pool, &mut ctx, json).unwrap();
    let fin_header = WsmHeader::from_bytes(&fin_frame[0..8]);
    assert_eq!(route_server(AuthState::Authenticated, fin_header.opcode), ServerRoute::Finalize);
    let chunks: Vec<Vec<u8>> = stored.into_iter().map(|c| c.unwrap()).collect();
    let assembled = assemble_and_check(&chunks, &meta.file_hash).expect("the hash matches");
    assert_eq!(assembled, file);
    sessions.remove(&meta.file_hash);
    let verdict = finalize_reply(fin_header.message_id, true);
    assert_eq!(verdict[8], 1);

    // Client reads the verdict; the upload is over.
    assert_eq!(on_finalize_reply(&mut ctx, Some(verdict[8])), FinalizeOutcome::Success);
    assert!(ctx.is_none());
}

#[test]
fn resumed_upload_skips_stored_chunks() {
    // The same file as the fresh walk, but chunk 1 survived an earlier
    // attempt and chunk 0 did not: the preparation reports resumable, the
    // inquiry for chunk 1 is answered with skip, and only chunk 0 travels.
    let file = test_file(1_048_576);
    let file_hash = content_hash(&file);
    let (off1, len1) = chunk_span(file.len() as u64, 1);
    let chunk1 = file[off1 as usize..(off1 + len1) as usize].to_vec();

    // The markers from the crashed attempt carry the same hash.
    let stored_hash_file = format!("{}\n", file_hash);
    assert_eq!(
        prepare_decision(false, true, Some(&stored_hash_file), &file_hash),
        PrepareOutcome::Resumable
    );
    let ack = init_reply(7, PreparationResult::Resumable);
    assert_eq!(ack[8], 2, "a resumable upload is acknowledged with code 2");

    let mut pending = PendingChunks::new();

    // Chunk 1 is already on disk with matching content: skip.
    let inquiry1 = build_chunk_inquiry(1, &chunk1);
    let reply1 = handle_chunk_inquiry(&mut pending, &inquiry1[8..], Some(&chunk1));
    let reply1_header = WsmHeader::from_bytes(&reply1[0..8]);
    assert!(reply1_header.is_final());
    assert_eq!(interpret_inquiry_reply(&reply1_header, reply1[8]), ChunkDirective::Skip);

    // Chunk 0 is missing: load, send, verify, store.
    let (off0, len0) = chunk_span(file.len() as u64, 0);
    let chunk0 = file[off0 as usize..(off0 + len0) as usize].to_vec();
    let inquiry0 = build_chunk_inquiry(0, &chunk0);
    let reply0 = handle_chunk_inquiry(&mut pending, &inquiry0[8..], None);
    let reply0_header = WsmHeader::from_bytes(&reply0[0..8]);
    assert_eq!(interpret_inquiry_reply(&reply0_header, reply0[8]), ChunkDirective::Load);
    let data0 = build_chunk_data(0, &chunk0);
    assert!(chunk_data_decision(&mut pending, &data0[8..]));
    assert!(WsmHeader::from_bytes(&chunk_data_reply(true)[0..8]).is_final());

    // Finalization over both chunks succeeds.
    let assembled = assemble_and_check(&vec![chunk0, chunk1], &file_hash).unwrap();
    assert_eq!(assembled, file);
}

#[test]
fn stale_markers_are_replaced_not_resumed() {
    // A lock whose stored hash names other content is cleaned up and the
    // upload starts fresh.
    assert_eq!(
        prepare_decision(false, true, Some("abcd"), "ffff"),
        PrepareOutcome::Stale
    );
    // The final file already existing rejects the upload even for the same
    // content.
    assert_eq!(prepare_decision(true, true, Some("ffff"), "ffff"), PrepareOutcome::AlreadyExists);
}
