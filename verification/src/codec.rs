//! The segment codec boundary: parsing raw bytes into plain header values
//! and serializing replies back into bytes.
//!
//! The byte-level work is done by the etherparse crate and taken on trust at
//! this boundary alone: what a parse yields, and what an encode emits, is a
//! function of the bytes or header values alone, named by the
//! uninterpreted functions below. Everything downstream of these values is
//! verified.

use vstd::prelude::*;
use crate::segment::OutboundSegment;

verus! {

/// Plain-value view of one parsed IPv4 header: addresses in big-endian
/// numeric form, the carried protocol, and the header's length in bytes.
#[derive(Clone, Copy, PartialEq, Eq, Structural, Debug)]
pub struct Ipv4Meta {
    pub src: u32,
    pub dst: u32,
    pub protocol: u8,
    pub header_len: usize,
}

/// Plain-value view of one parsed TCP header.
#[derive(Clone, Copy, PartialEq, Eq, Structural, Debug)]
pub struct TcpMeta {
    pub src_port: u16,
    pub dst_port: u16,
    pub seq: u32,
    pub ack: u32,
    pub wnd: u16,
    pub syn: bool,
    pub ack_set: bool,
    pub fin: bool,
    pub rst: bool,
    pub header_len: usize,
}

/// What the codec reads out of bytes that begin with an IPv4 header, if
/// they parse.
pub uninterp spec fn parsed_ipv4(bytes: Seq<u8>) -> Option<Ipv4Meta>;

/// What the codec reads out of bytes that begin with a TCP header, if they
/// parse.
pub uninterp spec fn parsed_tcp(bytes: Seq<u8>) -> Option<TcpMeta>;

/// The bytes the codec emits for one outbound segment: an IPv4 header
/// followed by a TCP header with its checksum.
pub uninterp spec fn encoded_frame(seg: OutboundSegment, ttl: u8) -> Seq<u8>;

/// Relies on etherparse::Ipv4HeaderSlice::from_slice: reads one IPv4 header
/// from the front of the given bytes, succeeding only when the full header
/// (20 to 60 bytes, per its length field) lies within them; the result
/// depends on the bytes alone.
#[verifier::external_body]
pub(crate) fn parse_ipv4(buf: &[u8], offset: usize) -> (r: Option<Ipv4Meta>)
    requires
        offset <= buf@.len(),
    ensures
        r == parsed_ipv4(buf@.skip(offset as int)),
        r matches Some(m) ==> 20 <= m.header_len && m.header_len <= 60 && offset + m.header_len
            <= buf@.len(),
{
    match etherparse::Ipv4HeaderSlice::from_slice(&buf[offset..]) {
        Ok(h) => Some(Ipv4Meta {
            src: u32::from_be_bytes(h.source()),
            dst: u32::from_be_bytes(h.destination()),
            protocol: h.protocol(),
            header_len: h.slice().len(),
        }),
        Err(_) => None,
    }
}

/// Relies on etherparse::TcpHeaderSlice::from_slice: reads one TCP header
/// from the front of the given bytes, succeeding only when the full header
/// (20 to 60 bytes, per its data offset) lies within them; the result
/// depends on the bytes alone.
#[verifier::external_body]
pub(crate) fn parse_tcp(buf: &[u8], offset: usize) -> (r: Option<TcpMeta>)
    requires
        offset <= buf@.len(),
    ensures
        r == parsed_tcp(buf@.skip(offset as int)),
        r matches Some(m) ==> 20 <= m.header_len && m.header_len <= 60 && offset + m.header_len
            <= buf@.len(),
{
    match etherparse::TcpHeaderSlice::from_slice(&buf[offset..]) {
        Ok(h) => Some(TcpMeta {
            src_port: h.source_port(),
            dst_port: h.destination_port(),
            seq: h.sequence_number(),
            ack: h.acknowledgment_number(),
            wnd: h.window_size(),
            syn: h.syn(),
            ack_set: h.ack(),
            fin: h.fin(),
            rst: h.rst(),
            header_len: h.slice().len(),
        }),
        Err(_) => None,
    }
}

/// Relies on etherparse's Ipv4Header and TcpHeader: their constructors,
/// calc_checksum_ipv4, and write serialize the given header values — and
/// nothing else — into bytes, so the emitted frame is a function of the
/// segment and the time-to-live alone.
#[verifier::external_body]
pub(crate) fn encode_segment(seg: &OutboundSegment, ttl: u8) -> (r: Vec<u8>)
    ensures
        r@ == encoded_frame(*seg, ttl),
{
    let mut tcp = etherparse::TcpHeader::new(seg.src_port, seg.dst_port, seg.seq, seg.wnd);
    tcp.acknowledgment_number = seg.ack;
    tcp.syn = seg.syn;
    tcp.ack = seg.ack_set;
    tcp.fin = seg.fin;
    tcp.rst = seg.rst;
    let src = seg.src_ip.to_be_bytes();
    let dst = seg.dst_ip.to_be_bytes();
    let ip = etherparse::Ipv4Header::new(tcp.header_len(), ttl, etherparse::IpNumber::Tcp, src, dst);
    tcp.checksum = tcp.calc_checksum_ipv4(&ip, &[]).unwrap();
    let mut out: Vec<u8> = Vec::with_capacity(40);
    ip.write(&mut out).unwrap();
    tcp.write(&mut out).unwrap();
    out
}

} // verus!
