//! The three-way handshake, driven segment by segment.

use tcp_engine::conn::{Connection, TcpState, INITIAL_SEND_SEQ, RECEIVE_WINDOW_SIZE};
use tcp_engine::segment::{ConnectionKey, EngineError, SegmentMeta};

fn key() -> ConnectionKey {
    ConnectionKey { local_ip: 0x0A00_0001, local_port: 80, remote_ip: 0x0102_0304, remote_port: 9000 }
}

fn seg(seq: u32, ack: u32, syn: bool, ack_set: bool, fin: bool, rst: bool, payload_len: u32) -> SegmentMeta {
    SegmentMeta { seq, ack, wnd: 512, syn, ack_set, fin, rst, payload_len }
}

#[test]
fn syn_in_listen_answered_with_syn_ack() {
    let k = key();
    let mut c = Connection::default();
    assert_eq!(c.state, TcpState::Listen);
    let r = c.on_packet(&k, &seg(100, 0, true, false, false, false, 0)).unwrap().unwrap();
    assert!(r.syn && r.ack_set && !r.fin && !r.rst);
    assert_eq!(r.ack, 101);
    assert_eq!(r.seq, INITIAL_SEND_SEQ);
    assert_eq!(r.wnd, RECEIVE_WINDOW_SIZE);
    assert_eq!(r.src_port, 80);
    assert_eq!(r.dst_port, 9000);
    assert_eq!(c.state, TcpState::SynRcvd);
    assert_eq!(c.recv.nxt, 101);
    assert_eq!(c.recv.irs, 100);
    assert_eq!(c.send.una, INITIAL_SEND_SEQ);
    assert_eq!(c.send.nxt, INITIAL_SEND_SEQ.wrapping_add(1));
}

#[test]
fn syn_wrapping_the_sequence_space() {
    let k = key();
    let mut c = Connection::default();
    let r = c.on_packet(&k, &seg(0xFFFF_FFFF, 0, true, false, false, false, 0)).unwrap().unwrap();
    assert_eq!(r.ack, 0);
    assert_eq!(c.recv.nxt, 0);
}

#[test]
fn non_syn_in_listen_is_unexpected() {
    let k = key();
    let mut c = Connection::default();
    let r = c.on_packet(&k, &seg(100, 0, false, true, false, false, 0));
    assert_eq!(r, Err(EngineError::UnexpectedFlagCombination));
    assert_eq!(c.state, TcpState::Listen);
}

#[test]
fn rst_in_listen_dropped_silently() {
    let k = key();
    let mut c = Connection::default();
    let r = c.on_packet(&k, &seg(100, 0, false, false, false, true, 0));
    assert_eq!(r, Ok(None));
    assert_eq!(c.state, TcpState::Listen);
}

#[test]
fn correct_ack_completes_handshake() {
    let k = key();
    let mut c = Connection::default();
    c.on_packet(&k, &seg(100, 0, true, false, false, false, 0)).unwrap();
    let iss = c.send.iss;
    let r = c.on_packet(&k, &seg(101, iss.wrapping_add(1), false, true, false, false, 0));
    assert_eq!(r, Ok(None));
    assert_eq!(c.state, TcpState::Estab);
    assert_eq!(c.send.una, c.send.nxt);
    // The window advertised in the completing ACK is recorded.
    assert_eq!(c.send.wnd, 512);
}

#[test]
fn wrong_ack_does_not_complete_handshake() {
    let k = key();
    let mut c = Connection::default();
    c.on_packet(&k, &seg(100, 0, true, false, false, false, 0)).unwrap();
    let iss = c.send.iss;
    // Acknowledging something other than iss + 1 leaves the machine waiting.
    let r = c.on_packet(&k, &seg(101, iss.wrapping_add(2), false, true, false, false, 0));
    assert_eq!(r, Ok(None));
    assert_eq!(c.state, TcpState::SynRcvd);
    // So does a bare segment without the ACK flag.
    let r2 = c.on_packet(&k, &seg(101, iss.wrapping_add(1), false, false, false, false, 0));
    assert_eq!(r2, Ok(None));
    assert_eq!(c.state, TcpState::SynRcvd);
}

#[test]
fn syn_ack_retransmitted_up_to_bound_then_abandoned() {
    let k = key();
    let mut c = Connection::default();
    c.on_packet(&k, &seg(100, 0, true, false, false, false, 0)).unwrap();
    for _ in 0..tcp_engine::conn::MAX_RETRANSMITS {
        let r = c.on_timer_expired(&k).unwrap();
        assert!(r.syn && r.ack_set);
        assert_eq!(r.ack, 101);
        assert_eq!(c.state, TcpState::SynRcvd);
    }
    // The bound is exhausted: the next expiry abandons the connection.
    assert_eq!(c.on_timer_expired(&k), None);
    assert_eq!(c.state, TcpState::Closed);
}
