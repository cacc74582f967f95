//! Core of a framed, multiplexed control-and-transfer protocol ("WSM") with a
//! chunked, resumable, content-addressed file-upload subsystem.
//!
//! The crate holds the protocol logic only: the 8-byte frame codec, the
//! message-id pool, the authentication gate, keep-alive tracking, the
//! per-endpoint dispatch decisions, the upload state machines of both sides,
//! chunk verification, finalization checks, virtual-path resolution, and the
//! command router. Transport, file and terminal i/o live outside it and hand
//! plain values in and out.

pub mod auth;
pub mod commands;
pub mod config;
pub mod dispatch;
pub mod finalize;
pub mod hashing;
pub mod header;
pub mod keepalive;
pub mod msg_id;
pub mod path;
pub mod stats;
pub mod text;
pub mod upload;
pub mod upload_client;
pub mod upload_server;
