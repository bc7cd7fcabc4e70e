//! End-to-end: raw frames in, raw frames out, with the real codec.

use tcp_engine::conn::TcpState;
use tcp_engine::engine::{handle_frame, handle_timer};
use tcp_engine::segment::{ConnectionKey, EngineError};
use tcp_engine::table::ConnectionTable;

/// Build one interface frame: the 4-byte platform prefix, an IPv4 header,
/// a TCP header with a valid checksum, and the payload.
fn build_frame(
    src_ip: [u8; 4],
    dst_ip: [u8; 4],
    src_port: u16,
    dst_port: u16,
    seq: u32,
    ack: u32,
    flags: (bool, bool, bool, bool),
    payload: &[u8],
) -> Vec<u8> {
    let (syn, ack_set, fin, rst) = flags;
    let mut tcp = etherparse::TcpHeader::new(src_port, dst_port, seq, 512);
    tcp.acknowledgment_number = ack;
    tcp.syn = syn;
    tcp.ack = ack_set;
    tcp.fin = fin;
    tcp.rst = rst;
    let ip = etherparse::Ipv4Header::new(
        tcp.header_len() + payload.len() as u16,
        64,
        etherparse::IpNumber::Tcp,
        src_ip,
        dst_ip,
    );
    tcp.checksum = tcp.calc_checksum_ipv4(&ip, payload).unwrap();
    let mut out = vec![0u8, 0, 8, 0];
    ip.write(&mut out).unwrap();
    tcp.write(&mut out).unwrap();
    out.extend_from_slice(payload);
    out
}

/// Split a reply frame (no platform prefix) into its parsed headers.
fn parse_reply(bytes: &[u8]) -> (etherparse::Ipv4HeaderSlice<'_>, etherparse::TcpHeaderSlice<'_>) {
    let ip = etherparse::Ipv4HeaderSlice::from_slice(bytes).unwrap();
    let tcp = etherparse::TcpHeaderSlice::from_slice(&bytes[ip.slice().len()..]).unwrap();
    (ip, tcp)
}

fn the_key() -> ConnectionKey {
    ConnectionKey { local_ip: 0x0A00_0001, local_port: 80, remote_ip: 0x0102_0304, remote_port: 9000 }
}

#[test]
fn handshake_end_to_end() {
    let mut table = ConnectionTable::new();
    let syn = build_frame([1, 2, 3, 4], [10, 0, 0, 1], 9000, 80, 100, 0, (true, false, false, false), &[]);
    let reply = handle_frame(&mut table, &syn).unwrap().unwrap();
    let (ip, tcp) = parse_reply(&reply);
    // The reply runs back to the peer, endpoints swapped.
    assert_eq!(ip.source(), [10, 0, 0, 1]);
    assert_eq!(ip.destination(), [1, 2, 3, 4]);
    assert_eq!(tcp.source_port(), 80);
    assert_eq!(tcp.destination_port(), 9000);
    assert!(tcp.syn() && tcp.ack());
    assert_eq!(tcp.acknowledgment_number(), 101);
    let iss = tcp.sequence_number();

    // The peer's ACK completes the handshake with nothing written back.
    let ack = build_frame([1, 2, 3, 4], [10, 0, 0, 1], 9000, 80, 101, iss.wrapping_add(1), (false, true, false, false), &[]);
    let reply2 = handle_frame(&mut table, &ack).unwrap();
    assert!(reply2.is_none());
    let c = table.lookup(&the_key()).unwrap();
    assert_eq!(c.state, TcpState::Estab);
}

#[test]
fn data_segment_end_to_end() {
    let mut table = ConnectionTable::new();
    let syn = build_frame([1, 2, 3, 4], [10, 0, 0, 1], 9000, 80, 100, 0, (true, false, false, false), &[]);
    let reply = handle_frame(&mut table, &syn).unwrap().unwrap();
    let (_, tcp) = parse_reply(&reply);
    let iss = tcp.sequence_number();
    let ack = build_frame([1, 2, 3, 4], [10, 0, 0, 1], 9000, 80, 101, iss.wrapping_add(1), (false, true, false, false), &[]);
    handle_frame(&mut table, &ack).unwrap();

    // Ten in-window bytes: the engine must advance by ten and acknowledge
    // exactly past them.
    let data = build_frame(
        [1, 2, 3, 4],
        [10, 0, 0, 1],
        9000,
        80,
        101,
        iss.wrapping_add(1),
        (false, true, false, false),
        b"0123456789",
    );
    let reply2 = handle_frame(&mut table, &data).unwrap().unwrap();
    let (_, tcp2) = parse_reply(&reply2);
    assert!(tcp2.ack() && !tcp2.syn() && !tcp2.fin() && !tcp2.rst());
    assert_eq!(tcp2.acknowledgment_number(), 111);
    let c = table.lookup(&the_key()).unwrap();
    assert_eq!(c.recv.nxt, 111);
    assert_eq!(c.state, TcpState::Estab);
}

#[test]
fn non_tcp_datagram_refused() {
    let mut table = ConnectionTable::new();
    let ip = etherparse::Ipv4Header::new(8, 64, etherparse::IpNumber::Udp, [1, 2, 3, 4], [10, 0, 0, 1]);
    let mut frame = vec![0u8, 0, 8, 0];
    ip.write(&mut frame).unwrap();
    frame.extend_from_slice(&[0, 53, 0, 53, 0, 8, 0, 0]);
    let r = handle_frame(&mut table, &frame);
    assert_eq!(r, Err(EngineError::NotTcp));
    assert_eq!(table.len(), 0);
}

#[test]
fn malformed_frames_refused() {
    let mut table = ConnectionTable::new();
    // Too short for even the platform prefix.
    assert_eq!(handle_frame(&mut table, &[0, 0]), Err(EngineError::MalformedHeader));
    // A prefix followed by bytes that are no IPv4 header.
    assert_eq!(
        handle_frame(&mut table, &[0, 0, 8, 0, 0xde, 0xad, 0xbe, 0xef]),
        Err(EngineError::MalformedHeader)
    );
    // A valid IPv4 header that claims TCP but carries too few bytes for one.
    let ip = etherparse::Ipv4Header::new(4, 64, etherparse::IpNumber::Tcp, [1, 2, 3, 4], [10, 0, 0, 1]);
    let mut frame = vec![0u8, 0, 8, 0];
    ip.write(&mut frame).unwrap();
    frame.extend_from_slice(&[1, 2, 3, 4]);
    assert_eq!(handle_frame(&mut table, &frame), Err(EngineError::MalformedHeader));
    assert_eq!(table.len(), 0);
}

#[test]
fn timer_retransmits_syn_ack_end_to_end() {
    let mut table = ConnectionTable::new();
    let syn = build_frame([1, 2, 3, 4], [10, 0, 0, 1], 9000, 80, 100, 0, (true, false, false, false), &[]);
    handle_frame(&mut table, &syn).unwrap();
    // The handshake hangs: the timer fires and the SYN+ACK goes out again.
    let bytes = handle_timer(&mut table, &the_key()).unwrap();
    let (_, tcp) = parse_reply(&bytes);
    assert!(tcp.syn() && tcp.ack());
    assert_eq!(tcp.acknowledgment_number(), 101);
    assert_eq!(table.lookup(&the_key()).unwrap().state, TcpState::SynRcvd);
    // A timer for an unknown connection does nothing.
    let stranger = ConnectionKey { remote_port: 1, ..the_key() };
    assert!(handle_timer(&mut table, &stranger).is_none());
}

#[test]
fn rst_frame_discards_entry_end_to_end() {
    let mut table = ConnectionTable::new();
    let syn = build_frame([1, 2, 3, 4], [10, 0, 0, 1], 9000, 80, 100, 0, (true, false, false, false), &[]);
    handle_frame(&mut table, &syn).unwrap();
    assert_eq!(table.len(), 1);
    let rst = build_frame([1, 2, 3, 4], [10, 0, 0, 1], 9000, 80, 101, 0, (false, false, false, true), &[]);
    let r = handle_frame(&mut table, &rst).unwrap();
    assert!(r.is_none());
    assert_eq!(table.len(), 0);
}
