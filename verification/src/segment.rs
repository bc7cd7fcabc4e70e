//! Plain-value views of one TCP segment, the connection key, and the engine's
//! error taxonomy.

use vstd::prelude::*;
use crate::seqnum::seq_add;

verus! {

/// Largest frame the interface delivers; no segment payload can exceed it.
pub const MAX_FRAME_LEN: u32 = 1504;

/// The pair of endpoints that identifies one TCP connection. `local` is this
/// engine's address, `remote` the peer's. Two keys are equal exactly when
/// both endpoint pairs match; there is no wildcard matching.
#[derive(Clone, Copy, PartialEq, Eq, Structural, Hash, Debug)]
pub struct ConnectionKey {
    pub local_ip: u32,
    pub local_port: u16,
    pub remote_ip: u32,
    pub remote_port: u16,
}

/// Header fields of one inbound segment, as plain values, together with the
/// length of its payload. The codec produces these from raw bytes.
#[derive(Clone, Copy, PartialEq, Eq, Structural, Debug)]
pub struct SegmentMeta {
    /// Sequence number of the first payload byte (or of the SYN/FIN).
    pub seq: u32,
    /// Acknowledgment number; meaningful only when `ack_set` holds.
    pub ack: u32,
    /// The window the peer advertises.
    pub wnd: u16,
    pub syn: bool,
    pub ack_set: bool,
    pub fin: bool,
    pub rst: bool,
    /// Number of payload bytes carried after the headers.
    pub payload_len: u32,
}

impl SegmentMeta {
    /// A segment that fits in one interface frame.
    pub open spec fn wf(self) -> bool {
        self.payload_len <= MAX_FRAME_LEN
    }
}

/// How much of the sequence space a segment occupies: its payload plus one
/// for a SYN and one for a FIN, each of which consumes one sequence number.
pub open spec fn spec_segment_len(seg: SegmentMeta) -> u32 {
    (seg.payload_len + (if seg.syn { 1int } else { 0 }) + (if seg.fin { 1int } else { 0 })) as u32
}

/// Executable sequence-space length of a segment.
pub fn segment_len(seg: &SegmentMeta) -> (r: u32)
    requires
        seg.wf(),
    ensures
        r == spec_segment_len(*seg),
{
    seg.payload_len + (if seg.syn { 1 } else { 0 }) + (if seg.fin { 1 } else { 0 })
}

/// One segment to transmit, as plain header values. The engine sends no
/// payload of its own, so a value of this type is a complete reply.
#[derive(Clone, Copy, PartialEq, Eq, Structural, Debug)]
pub struct OutboundSegment {
    pub src_ip: u32,
    pub src_port: u16,
    pub dst_ip: u32,
    pub dst_port: u16,
    pub seq: u32,
    pub ack: u32,
    pub wnd: u16,
    pub syn: bool,
    pub ack_set: bool,
    pub fin: bool,
    pub rst: bool,
}

/// Why a frame or segment was dropped. Every variant is recovered locally:
/// the frame is discarded and the dispatch loop goes on.
#[derive(Clone, Copy, PartialEq, Eq, Structural, Debug)]
pub enum EngineError {
    /// The IP or TCP header failed to parse; dropped with no reply.
    MalformedHeader,
    /// The datagram carries a protocol other than TCP; dropped silently.
    NotTcp,
    /// The sequence number lies outside the acceptance window and no
    /// corrective ACK is owed; dropped with no reply.
    OutOfWindowSegment,
    /// Flags that the current state cannot accept, such as a non-SYN
    /// segment for an unknown connection; dropped with no reply.
    UnexpectedFlagCombination,
}

/// A bare acknowledgment from `local` to `remote`, restating `ack` as the
/// next sequence number expected.
pub open spec fn spec_ack_segment(key: ConnectionKey, seq: u32, ack: u32, wnd: u16) -> OutboundSegment {
    OutboundSegment {
        src_ip: key.local_ip,
        src_port: key.local_port,
        dst_ip: key.remote_ip,
        dst_port: key.remote_port,
        seq: seq,
        ack: ack,
        wnd: wnd,
        syn: false,
        ack_set: true,
        fin: false,
        rst: false,
    }
}

/// The SYN+ACK reply of the handshake: own initial sequence `iss`,
/// acknowledging the peer's SYN.
pub open spec fn spec_syn_ack_segment(key: ConnectionKey, iss: u32, peer_seq: u32, wnd: u16) -> OutboundSegment {
    OutboundSegment {
        syn: true,
        ..spec_ack_segment(key, iss, seq_add(peer_seq, 1), wnd)
    }
}

/// A FIN carrying an acknowledgment, starting the local side of teardown.
pub open spec fn spec_fin_segment(key: ConnectionKey, seq: u32, ack: u32, wnd: u16) -> OutboundSegment {
    OutboundSegment {
        fin: true,
        ..spec_ack_segment(key, seq, ack, wnd)
    }
}

impl OutboundSegment {
    /// Build a bare ACK.
    pub fn ack_segment(key: &ConnectionKey, seq: u32, ack: u32, wnd: u16) -> (r: OutboundSegment)
        ensures
            r == spec_ack_segment(*key, seq, ack, wnd),
    {
        OutboundSegment {
            src_ip: key.local_ip,
            src_port: key.local_port,
            dst_ip: key.remote_ip,
            dst_port: key.remote_port,
            seq: seq,
            ack: ack,
            wnd: wnd,
            syn: false,
            ack_set: true,
            fin: false,
            rst: false,
        }
    }

    /// Build the SYN+ACK that answers a SYN with sequence number `peer_seq`.
    pub fn syn_ack_segment(key: &ConnectionKey, iss: u32, peer_seq: u32, wnd: u16) -> (r: OutboundSegment)
        ensures
            r == spec_syn_ack_segment(*key, iss, peer_seq, wnd),
    {
        let mut r = Self::ack_segment(key, iss, crate::seqnum::seq_plus(peer_seq, 1), wnd);
        r.syn = true;
        r
    }

    /// Build a FIN+ACK.
    pub fn fin_segment(key: &ConnectionKey, seq: u32, ack: u32, wnd: u16) -> (r: OutboundSegment)
        ensures
            r == spec_fin_segment(*key, seq, ack, wnd),
    {
        let mut r = Self::ack_segment(key, seq, ack, wnd);
        r.fin = true;
        r
    }
}

} // verus!
