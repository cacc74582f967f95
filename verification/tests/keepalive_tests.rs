use anchr::keepalive::{build_ping_header, build_pong_header, handle_ping_request, PingTracker};
use anchr::msg_id::IdPool;

#[test]
fn ping_header_bytes() {
    // {0x01, id=0x07, 0x03, 0x00, len=0}
    assert_eq!(build_ping_header(0x07), vec![0x01, 0x07, 0x03, 0x00, 0, 0, 0, 0]);
}

#[test]
fn pong_header_bytes() {
    // {0x02, id=0x07, 0x03, 0xFF, len=0}
    assert_eq!(build_pong_header(0x07), vec![0x02, 0x07, 0x03, 0xFF, 0, 0, 0, 0]);
}

#[test]
fn ping_pong_exchange() {
    // Server answers a PING by echoing the id in a final PONG; the client
    // then clears its in-flight entry and the id is released.
    let reply = handle_ping_request(0x07);
    assert_eq!(reply, vec![0x02, 0x07, 0x03, 0xFF, 0, 0, 0, 0]);

    let mut pool = IdPool::new();
    let mut tracker = PingTracker::new();
    let id = pool.allocate().unwrap();
    tracker.insert(id, 1_000);
    assert!(tracker.remove(id), "the PONG clears the tracked PING");
    assert!(pool.release(id));
    assert!(!tracker.remove(id), "no entry remains for the id");
}

#[test]
fn client_ping_allocates_fresh_id() {
    let mut pool = IdPool::new();
    let (id, frame) = anchr::keepalive::build_client_ping(&mut pool).unwrap();
    assert_eq!(frame.len(), 8);
    assert_eq!(frame[0], 0x01);
    assert_eq!(frame[1], id);
    assert!(pool.contains(id));
}

#[test]
fn watchdog_fires_after_timeout_only() {
    let mut tracker = PingTracker::new();
    tracker.insert(7, 1_000);
    assert!(tracker.check_timeout(1_400).is_none(), "400 ms is within the limit");
    assert!(tracker.check_timeout(1_500).is_none(), "exactly 500 ms is still within");
    assert_eq!(tracker.check_timeout(1_501), Some(7), "past 500 ms the watchdog fires");
    tracker.clear();
    assert!(tracker.check_timeout(10_000).is_none(), "a cleared tracker never fires");
}
