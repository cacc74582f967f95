//! Keep-alive: the client's periodic PING, the server's PONG answer, and the
//! client-side watchdog that tracks which PINGs still await a PONG.
//!
//! The tracker is the decision core of the watchdog: the surrounding loop
//! feeds it the current time in milliseconds and closes the connection as
//! soon as it reports a missed PONG.

use crate::header::{
    spec_frame, PayloadType, WsmHeader, OPCODE_PING, OPCODE_PONG, RESERVED_FINAL_FLAG,
};
use crate::msg_id::IdPool;
use vstd::prelude::*;

verus! {

/// How often the client sends a PING, in milliseconds.
pub const PING_INTERVAL_MS: u64 = 1000;

/// How long a PING may go unanswered before the client closes, in
/// milliseconds.
pub const PONG_TIMEOUT_MS: u64 = 500;

/// How often the client's watchdog scans the tracker, in milliseconds.
pub const WATCHDOG_INTERVAL_MS: u64 = 100;

/// The header of a PING frame.
pub open spec fn spec_ping_header(message_id: u8) -> WsmHeader {
    WsmHeader {
        opcode: OPCODE_PING,
        message_id,
        payload_type: 0x03,
        reserved: 0,
        payload_len: 0,
    }
}

/// The header of a PONG frame; PONG always closes its exchange.
pub open spec fn spec_pong_header(message_id: u8) -> WsmHeader {
    WsmHeader {
        opcode: OPCODE_PONG,
        message_id,
        payload_type: 0x03,
        reserved: RESERVED_FINAL_FLAG,
        payload_len: 0,
    }
}

/// Builds the 8 PING header bytes for a message id.
pub fn build_ping_header(message_id: u8) -> (v: Vec<u8>)
    ensures
        v@ == spec_ping_header(message_id).spec_bytes(),
{
    WsmHeader::new(OPCODE_PING, message_id, PayloadType::Raw, 0).to_bytes()
}

/// Builds the 8 PONG header bytes for a message id.
pub fn build_pong_header(message_id: u8) -> (v: Vec<u8>)
    ensures
        v@ == spec_pong_header(message_id).spec_bytes(),
{
    WsmHeader::with_reserved(OPCODE_PONG, message_id, PayloadType::Raw, 0, RESERVED_FINAL_FLAG)
        .to_bytes()
}

/// Allocates a fresh message id and builds the PING frame for it; at pool
/// saturation returns none and changes nothing.
pub fn build_client_ping(pool: &mut IdPool) -> (r: Option<(u8, Vec<u8>)>)
    requires
        old(pool).wf(),
    ensures
        final(pool).wf(),
        r is None <==> old(pool).spec_size() == 256,
        r is None ==> *final(pool) == *old(pool),
        r matches Some((id, v)) ==> {
            &&& v@ == spec_ping_header(id).spec_bytes()
            &&& !old(pool).spec_contains(id)
            &&& final(pool).spec_contains(id)
            &&& final(pool).spec_size() == old(pool).spec_size() + 1
            &&& forall|other: u8|
                other != id ==> final(pool).spec_contains(other) == old(pool).spec_contains(other)
        },
{
    match pool.allocate() {
        Some(id) => Some((id, build_ping_header(id))),
        None => None,
    }
}

/// Answers a PING: the PONG frame echoing the same message id. The reply is
/// a bare final header with no payload.
pub fn handle_ping_request(message_id: u8) -> (v: Vec<u8>)
    ensures
        v@ == spec_frame(spec_pong_header(message_id), Seq::empty()),
{
    let v = build_pong_header(message_id);
    proof {
        assert(v@ =~= spec_frame(spec_pong_header(message_id), Seq::empty()));
    }
    v
}

/// The client's record of PINGs still awaiting a PONG: for each message id,
/// the time it was sent, in milliseconds of a monotonic clock.
pub struct PingTracker {
    sent: Vec<Option<u64>>,
}

impl PingTracker {
    /// Structural invariant: one slot per possible message id.
    pub closed spec fn wf(self) -> bool {
        self.sent@.len() == 256
    }

    /// Whether a PING with this id is awaiting a PONG.
    pub closed spec fn spec_contains(self, id: u8) -> bool {
        self.sent@[id as int] is Some
    }

    /// When the awaited PING was sent.
    pub closed spec fn spec_sent_at(self, id: u8) -> u64
        recommends
            self.spec_contains(id),
    {
        self.sent@[id as int]->0
    }

    /// Whether some tracked PING has gone unanswered past the timeout.
    pub open spec fn spec_has_missed_pong(self, now: u64) -> bool {
        exists|id: u8|
            self.spec_contains(id) && now > #[trigger] self.spec_sent_at(id) + PONG_TIMEOUT_MS
    }

    /// Creates an empty tracker.
    pub fn new() -> (t: PingTracker)
        ensures
            t.wf(),
            forall|id: u8| !t.spec_contains(id),
    {
        let mut sent: Vec<Option<u64>> = Vec::new();
        let mut i: usize = 0;
        while i < 256
            invariant
                i <= 256,
                sent@.len() == i,
                forall|j: int| 0 <= j < i ==> sent@[j] is None,
            decreases 256 - i,
        {
            sent.push(None);
            i = i + 1;
        }
        PingTracker { sent }
    }

    /// Records that a PING with this id was sent at `now`.
    pub fn insert(&mut self, id: u8, now: u64)
        requires
            old(self).wf(),
        ensures
            final(self).wf(),
            final(self).spec_contains(id),
            final(self).spec_sent_at(id) == now,
            forall|other: u8|
                other != id ==> {
                    &&& final(self).spec_contains(other) == old(self).spec_contains(other)
                    &&& old(self).spec_contains(other) ==> final(self).spec_sent_at(other) == old(
                        self,
                    ).spec_sent_at(other)
                },
    {
        self.sent[id as usize] = Some(now);
    }

    /// Forgets the PING with this id, reporting whether it was tracked: the
    /// client's handling of a PONG.
    pub fn remove(&mut self, id: u8) -> (was_tracked: bool)
        requires
            old(self).wf(),
        ensures
            final(self).wf(),
            was_tracked == old(self).spec_contains(id),
            !final(self).spec_contains(id),
            forall|other: u8|
                other != id ==> {
                    &&& final(self).spec_contains(other) == old(self).spec_contains(other)
                    &&& old(self).spec_contains(other) ==> final(self).spec_sent_at(other) == old(
                        self,
                    ).spec_sent_at(other)
                },
    {
        let was_tracked = self.sent[id as usize].is_some();
        self.sent[id as usize] = None;
        was_tracked
    }

    /// Forgets every tracked PING.
    pub fn clear(&mut self)
        requires
            old(self).wf(),
        ensures
            final(self).wf(),
            forall|id: u8| !final(self).spec_contains(id),
    {
        let mut i: usize = 0;
        while i < 256
            invariant
                i <= 256,
                self.sent@.len() == 256,
                forall|j: int| 0 <= j < i ==> self.sent@[j] is None,
            decreases 256 - i,
        {
            self.sent[i] = None;
            i = i + 1;
        }
    }

    /// The watchdog's scan: reports a message id whose PING has gone
    /// unanswered for more than the timeout, exactly when one exists.
    pub fn check_timeout(&self, now: u64) -> (r: Option<u8>)
        requires
            self.wf(),
        ensures
            r is Some <==> self.spec_has_missed_pong(now),
            r matches Some(id) ==> self.spec_contains(id) && now > self.spec_sent_at(id)
                + PONG_TIMEOUT_MS,
    {
        let mut i: usize = 0;
        while i < 256
            invariant
                i <= 256,
                self.sent@.len() == 256,
                forall|j: u8|
                    (j as int) < i ==> !(self.spec_contains(j) && now
                        > #[trigger] self.spec_sent_at(j) + PONG_TIMEOUT_MS),
            decreases 256 - i,
        {
            match self.sent[i] {
                Some(sent_at) => {
                    if now > PONG_TIMEOUT_MS && sent_at < now - PONG_TIMEOUT_MS {
                        proof {
                            assert(self.spec_contains(i as u8));
                            assert(now > self.spec_sent_at(i as u8) + PONG_TIMEOUT_MS);
                        }
                        return Some(i as u8);
                    }
                },
                None => {},
            }
            i = i + 1;
        }
        None
    }
}

/// The watchdog misses nothing: whenever a tracked PING is older than the
/// timeout, the scan reports some overdue id.
pub proof fn lemma_missed_pong_detected(t: PingTracker, now: u64, id: u8)
    requires
        t.spec_contains(id),
        now > t.spec_sent_at(id) + PONG_TIMEOUT_MS,
    ensures
        t.spec_has_missed_pong(now),
{
}

/// The watchdog is prompt: with scans at most one interval apart, the first
/// scan past the timeout comes no later than timeout plus interval after
/// the PING was sent — a missed PONG closes the connection within 600 ms.
pub proof fn lemma_detection_latency(sent: u64, prev_scan: u64, next_scan: u64)
    requires
        prev_scan <= sent + PONG_TIMEOUT_MS < next_scan,
        next_scan - prev_scan <= WATCHDOG_INTERVAL_MS,
    ensures
        next_scan <= sent + PONG_TIMEOUT_MS + WATCHDOG_INTERVAL_MS,
{
}

} // verus!
