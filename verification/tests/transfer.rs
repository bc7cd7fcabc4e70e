//! Data transfer: window acceptance, acknowledgments, and window updates.

use tcp_engine::conn::{Connection, TcpState};
use tcp_engine::segment::{ConnectionKey, EngineError, SegmentMeta};
use tcp_engine::tracker::{RecvSequenceSpace, SendSequenceSpace};

fn key() -> ConnectionKey {
    ConnectionKey { local_ip: 0x0A00_0001, local_port: 80, remote_ip: 0x0102_0304, remote_port: 9000 }
}

fn seg(seq: u32, ack: u32, syn: bool, ack_set: bool, fin: bool, rst: bool, payload_len: u32) -> SegmentMeta {
    SegmentMeta { seq, ack, wnd: 512, syn, ack_set, fin, rst, payload_len }
}

/// A connection taken through the handshake: peer sequence begins at 100,
/// so the next expected sequence number is 101.
fn established() -> (ConnectionKey, Connection) {
    let k = key();
    let mut c = Connection::default();
    c.on_packet(&k, &seg(100, 0, true, false, false, false, 0)).unwrap();
    let iss = c.send.iss;
    c.on_packet(&k, &seg(101, iss.wrapping_add(1), false, true, false, false, 0)).unwrap();
    assert_eq!(c.state, TcpState::Estab);
    (k, c)
}

#[test]
fn in_window_data_advances_and_is_acked() {
    let (k, mut c) = established();
    let r = c.on_packet(&k, &seg(101, 1, false, true, false, false, 10)).unwrap().unwrap();
    assert_eq!(c.recv.nxt, 111);
    assert!(r.ack_set && !r.syn && !r.fin && !r.rst);
    assert_eq!(r.ack, 111);
    assert_eq!(c.state, TcpState::Estab);
}

#[test]
fn stale_segment_dropped_without_advancing() {
    let (k, mut c) = established();
    // Wholly before the window: sequence numbers 50..60 lag behind 101.
    let r = c.on_packet(&k, &seg(50, 1, false, true, false, false, 10)).unwrap().unwrap();
    assert_eq!(c.recv.nxt, 101);
    assert_eq!(c.state, TcpState::Estab);
    // The drop is answered with an ACK restating the expected number.
    assert!(r.ack_set);
    assert_eq!(r.ack, 101);
}

#[test]
fn out_of_window_duplicate_ack_dropped_silently() {
    let (k, mut c) = established();
    let r = c.on_packet(&k, &seg(50, 1, false, true, false, false, 0));
    assert_eq!(r, Err(EngineError::OutOfWindowSegment));
    assert_eq!(c.recv.nxt, 101);
}

#[test]
fn in_window_but_out_of_order_gets_corrective_ack() {
    let (k, mut c) = established();
    // Within the window but ahead of the expected number: not consumed.
    let r = c.on_packet(&k, &seg(150, 1, false, true, false, false, 10)).unwrap().unwrap();
    assert_eq!(c.recv.nxt, 101);
    assert!(r.ack_set);
    assert_eq!(r.ack, 101);
}

#[test]
fn syn_inside_established_window_is_unexpected() {
    let (k, mut c) = established();
    let r = c.on_packet(&k, &seg(101, 1, true, false, false, false, 0));
    assert_eq!(r, Err(EngineError::UnexpectedFlagCombination));
    assert_eq!(c.state, TcpState::Estab);
}

#[test]
fn window_update_taken_from_newer_segment() {
    let mut s = SendSequenceSpace { una: 0, nxt: 10, wnd: 500, up: false, wl1: 200, wl2: 5, iss: 0 };
    let accepted = s.on_ack(7, 201, 777);
    assert!(accepted);
    assert_eq!(s.una, 7);
    assert_eq!(s.wnd, 777);
    assert_eq!(s.wl1, 201);
    assert_eq!(s.wl2, 7);
}

#[test]
fn stale_window_update_ignored_even_on_valid_ack() {
    let mut s = SendSequenceSpace { una: 0, nxt: 10, wnd: 500, up: false, wl1: 200, wl2: 5, iss: 0 };
    // The acknowledgment itself is acceptable (0 < 7 <= 10), but the
    // segment's (seq, ack) pair orders before the last recorded update
    // (200, 5): the window must keep its value.
    let accepted = s.on_ack(7, 199, 9999);
    assert!(accepted);
    assert_eq!(s.una, 7);
    assert_eq!(s.wnd, 500);
    assert_eq!(s.wl1, 200);
    assert_eq!(s.wl2, 5);
    // Same sequence number, older acknowledgment: still stale.
    let mut s2 = SendSequenceSpace { una: 0, nxt: 10, wnd: 500, up: false, wl1: 200, wl2: 5, iss: 0 };
    let accepted2 = s2.on_ack(4, 200, 9999);
    assert!(accepted2);
    assert_eq!(s2.wnd, 500);
}

#[test]
fn unacceptable_ack_changes_nothing() {
    let mut s = SendSequenceSpace { una: 3, nxt: 10, wnd: 500, up: false, wl1: 200, wl2: 5, iss: 0 };
    // Acknowledges only what was already acknowledged.
    let accepted = s.on_ack(3, 300, 900);
    assert!(!accepted);
    assert_eq!(s.una, 3);
    assert_eq!(s.wnd, 500);
    // Acknowledges beyond what was ever sent.
    let accepted2 = s.on_ack(11, 300, 900);
    assert!(!accepted2);
    assert_eq!(s.una, 3);
}

#[test]
fn receive_window_overlap_rules() {
    let r = RecvSequenceSpace { nxt: 1000, wnd: 100, up: false, irs: 0 };
    // First byte inside the window.
    assert!(r.is_in_receive_window(1000, 10));
    assert!(r.is_in_receive_window(1099, 1));
    // Ends inside the window though it starts before it.
    assert!(r.is_in_receive_window(995, 10));
    // Entirely before, entirely after.
    assert!(!r.is_in_receive_window(900, 50));
    assert!(!r.is_in_receive_window(1100, 1));
    // Empty segments: acceptable at the edge, even with a closed window.
    assert!(r.is_in_receive_window(1000, 0));
    assert!(!r.is_in_receive_window(999, 0));
    let closed = RecvSequenceSpace { nxt: 1000, wnd: 0, up: false, irs: 0 };
    assert!(closed.is_in_receive_window(1000, 0));
    assert!(!closed.is_in_receive_window(1000, 1));
}
