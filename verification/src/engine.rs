//! The dispatch layer: decode one raw frame, derive its connection key, run
//! the connection table, and encode whatever the machine answers.

use vstd::prelude::*;
use crate::codec::{
    encode_segment, encoded_frame, parse_ipv4, parse_tcp, parsed_ipv4, parsed_tcp, Ipv4Meta,
    TcpMeta,
};
use crate::conn::{spec_listen_connection, spec_on_timer, spec_step, TcpState};
use crate::segment::{ConnectionKey, EngineError, OutboundSegment, SegmentMeta, MAX_FRAME_LEN};
use crate::table::ConnectionTable;

verus! {

/// Time-to-live of every frame this engine emits.
pub const EMIT_TTL: u8 = 64;

/// Bytes of platform framing before the IPv4 header in every frame the
/// interface delivers; they are stripped before decoding and the replies are
/// written back behind the same framing.
pub const FRAME_PREFIX_LEN: usize = 4;

/// The protocol number that marks a datagram as TCP.
pub const TCP_PROTOCOL_NUMBER: u8 = 6;

/// The connection key a decoded segment belongs to, seen from this engine:
/// the datagram's destination is the local endpoint, its source the remote.
pub open spec fn spec_key_of(ip: Ipv4Meta, tcp: TcpMeta) -> ConnectionKey {
    ConnectionKey {
        local_ip: ip.dst,
        local_port: tcp.dst_port,
        remote_ip: ip.src,
        remote_port: tcp.src_port,
    }
}

impl ConnectionKey {
    /// Derive the key from a decoded header pair. The caller has already
    /// checked that the datagram carries TCP.
    pub fn derive(ip: &Ipv4Meta, tcp: &TcpMeta) -> (r: ConnectionKey)
        ensures
            r == spec_key_of(*ip, *tcp),
    {
        ConnectionKey {
            local_ip: ip.dst,
            local_port: tcp.dst_port,
            remote_ip: ip.src,
            remote_port: tcp.src_port,
        }
    }
}

/// The segment a decoded TCP header describes, with its payload length.
pub open spec fn spec_meta_of(tcp: TcpMeta, payload_len: u32) -> SegmentMeta {
    SegmentMeta {
        seq: tcp.seq,
        ack: tcp.ack,
        wnd: tcp.wnd,
        syn: tcp.syn,
        ack_set: tcp.ack_set,
        fin: tcp.fin,
        rst: tcp.rst,
        payload_len: payload_len,
    }
}

/// What decoding one raw frame yields: the platform prefix is stripped, the
/// IPv4 header read, non-TCP datagrams refused, the TCP header read, and the
/// payload length taken from what the headers leave of the frame.
pub open spec fn spec_decode(frame: Seq<u8>) -> Result<(ConnectionKey, SegmentMeta), EngineError> {
    if frame.len() < FRAME_PREFIX_LEN {
        Err(EngineError::MalformedHeader)
    } else {
        match parsed_ipv4(frame.skip(FRAME_PREFIX_LEN as int)) {
            None => Err(EngineError::MalformedHeader),
            Some(ip) => {
                if ip.protocol != TCP_PROTOCOL_NUMBER {
                    Err(EngineError::NotTcp)
                } else {
                    match parsed_tcp(frame.skip(FRAME_PREFIX_LEN + ip.header_len)) {
                        None => Err(EngineError::MalformedHeader),
                        Some(tcp) => {
                            let payload_len = frame.len() - FRAME_PREFIX_LEN - ip.header_len
                                - tcp.header_len;
                            Ok((spec_key_of(ip, tcp), spec_meta_of(tcp, payload_len as u32)))
                        },
                    }
                }
            },
        }
    }
}

/// Handle one raw frame: decode it, drive the connection it belongs to, and
/// return the bytes of the reply, if the machine owes one. Decode failures
/// are reported and change nothing; the table is updated exactly as its
/// dispatch contract states, under the decoded key.
pub fn handle_frame(table: &mut ConnectionTable, frame: &[u8]) -> (r: Result<
    Option<Vec<u8>>,
    EngineError,
>)
    requires
        old(table).wf(),
        frame@.len() <= MAX_FRAME_LEN,
    ensures
        final(table).wf(),
        ({
            let d = spec_decode(frame@);
            &&& (d matches Err(e) ==> r == Err::<Option<Vec<u8>>, EngineError>(e) && *final(table)
                == *old(table))
            &&& (d matches Ok(p) ==> ({
                let c0 = if old(table).has_key(p.0) {
                    old(table).conn_at(p.0)
                } else {
                    spec_listen_connection()
                };
                let (c1, res) = spec_step(c0, p.0, p.1);
                let gone = c1.state == TcpState::Closed || c1.state == TcpState::Listen;
                &&& (!gone ==> final(table).has_key(p.0) && final(table).conn_at(p.0) == c1)
                &&& (gone ==> !final(table).has_key(p.0))
                &&& (forall|k: ConnectionKey|
                    k != p.0 ==> final(table).has_key(k) == old(table).has_key(k))
                &&& (forall|k: ConnectionKey|
                    k != p.0 && old(table).has_key(k) ==> final(table).conn_at(k) == old(
                        table,
                    ).conn_at(k))
                &&& (match res {
                    Err(e2) => r == Err::<Option<Vec<u8>>, EngineError>(e2),
                    Ok(None) => r == Ok::<Option<Vec<u8>>, EngineError>(None),
                    Ok(Some(out)) => (r matches Ok(ob) && ob matches Some(bytes) && bytes@
                        == encoded_frame(out, EMIT_TTL)),
                })
            }))
        }),
{
    if frame.len() < FRAME_PREFIX_LEN {
        return Err(EngineError::MalformedHeader);
    }
    let ip = match parse_ipv4(frame, FRAME_PREFIX_LEN) {
        None => {
            return Err(EngineError::MalformedHeader);
        },
        Some(ip) => ip,
    };
    if ip.protocol != TCP_PROTOCOL_NUMBER {
        return Err(EngineError::NotTcp);
    }
    let tcp_offset = FRAME_PREFIX_LEN + ip.header_len;
    let tcp = match parse_tcp(frame, tcp_offset) {
        None => {
            return Err(EngineError::MalformedHeader);
        },
        Some(tcp) => tcp,
    };
    let payload_len = frame.len() - tcp_offset - tcp.header_len;
    let key = ConnectionKey::derive(&ip, &tcp);
    let seg = SegmentMeta {
        seq: tcp.seq,
        ack: tcp.ack,
        wnd: tcp.wnd,
        syn: tcp.syn,
        ack_set: tcp.ack_set,
        fin: tcp.fin,
        rst: tcp.rst,
        payload_len: payload_len as u32,
    };
    match table.process_segment(&key, &seg) {
        Err(e) => Err(e),
        Ok(None) => Ok(None),
        Ok(Some(out)) => Ok(Some(encode_segment(&out, EMIT_TTL))),
    }
}

/// A timer due for this key has expired: run the machine's timer step
/// through the table and return the bytes of whatever it retransmits.
pub fn handle_timer(table: &mut ConnectionTable, key: &ConnectionKey) -> (r: Option<Vec<u8>>)
    requires
        old(table).wf(),
    ensures
        final(table).wf(),
        !old(table).has_key(*key) ==> r is None && *final(table) == *old(table),
        old(table).has_key(*key) ==> ({
            let (c1, res) = spec_on_timer(old(table).conn_at(*key), *key);
            &&& (c1.state != TcpState::Closed ==> final(table).has_key(*key)
                && final(table).conn_at(*key) == c1)
            &&& (c1.state == TcpState::Closed ==> !final(table).has_key(*key))
            &&& (match res {
                None => r is None,
                Some(out) => (r matches Some(bytes) && bytes@ == encoded_frame(out, EMIT_TTL)),
            })
        }),
        forall|k: ConnectionKey| k != *key ==> final(table).has_key(k) == old(table).has_key(k),
        forall|k: ConnectionKey|
            k != *key && old(table).has_key(k) ==> final(table).conn_at(k) == old(table).conn_at(
                k,
            ),
{
    match table.process_timer(key) {
        None => None,
        Some(out) => Some(encode_segment(&out, EMIT_TTL)),
    }
}

} // verus!
