//! The per-connection state machine (RFC 793 section 3.2): handshake, data
//! transfer, and teardown, driven one inbound segment at a time.
//!
//! Every transition is defined by the spec functions below; the executable
//! methods are proved to follow them exactly. A connection accepts inbound
//! opens only: it is created in `Listen` and never opens actively.

use vstd::prelude::*;
use crate::segment::{
    spec_ack_segment, spec_fin_segment, spec_segment_len, spec_syn_ack_segment, segment_len,
    ConnectionKey, EngineError, OutboundSegment, SegmentMeta,
};
use crate::seqnum::{seq_add, seq_distance, seq_plus, lemma_seq_add_distance};
use crate::tracker::{RecvSequenceSpace, SendSequenceSpace};

verus! {

/// The window this engine advertises to every peer (a single fixed policy).
pub const RECEIVE_WINDOW_SIZE: u16 = 1024;

/// The initial send sequence number chosen for every accepted connection.
pub const INITIAL_SEND_SEQ: u32 = 0;

/// How many times an unanswered SYN+ACK is retransmitted before the
/// connection is abandoned.
pub const MAX_RETRANSMITS: u32 = 5;

/// Initial retransmission timeout, for the caller's timer.
pub const INITIAL_RETRANSMIT_TIMEOUT_MS: u64 = 1000;

/// How long a connection lingers in `TimeWait` (two maximum segment
/// lifetimes), for the caller's timer.
pub const TIME_WAIT_DURATION_MS: u64 = 240000;

/// The RFC 793 connection states.
#[derive(Clone, Copy, PartialEq, Eq, Structural, Debug)]
pub enum TcpState {
    Closed,
    Listen,
    SynRcvd,
    Estab,
    FinWait1,
    FinWait2,
    Closing,
    TimeWait,
    CloseWait,
    LastAck,
}

/// One TCP connection: its state, and the bookkeeping for each direction.
#[derive(Clone, Copy, PartialEq, Eq, Structural, Debug)]
pub struct Connection {
    pub state: TcpState,
    pub send: SendSequenceSpace,
    pub recv: RecvSequenceSpace,
    /// How many times the SYN+ACK has been retransmitted.
    pub syn_ack_retries: u32,
}

/// A fresh connection, listening, with empty sequence spaces.
pub open spec fn spec_listen_connection() -> Connection {
    Connection {
        state: TcpState::Listen,
        send: SendSequenceSpace { una: 0, nxt: 0, wnd: 0, up: false, wl1: 0, wl2: 0, iss: 0 },
        recv: RecvSequenceSpace { nxt: 0, wnd: 0, up: false, irs: 0 },
        syn_ack_retries: 0,
    }
}

/// An acknowledgment with nothing else in it: no payload and no other flag.
pub open spec fn spec_is_bare_ack(seg: SegmentMeta) -> bool {
    seg.ack_set && !seg.syn && !seg.fin && !seg.rst && seg.payload_len == 0
}

/// The ACK that answers an unacceptable or out-of-order segment, restating
/// the sequence number expected next.
pub open spec fn spec_corrective_ack(c: Connection, key: ConnectionKey) -> OutboundSegment {
    spec_ack_segment(key, c.send.nxt, c.recv.nxt, c.recv.wnd)
}

/// Whether a segment acknowledges everything sent so far — in the states
/// that have sent a FIN, exactly the acknowledgment of that FIN.
pub open spec fn spec_acks_everything(c: Connection, seg: SegmentMeta) -> bool {
    seg.ack_set && seg.ack == c.send.nxt
}

/// The `Listen` transition: a SYN opens the connection — the peer's sequence
/// number is recorded, an initial send sequence is chosen, and a SYN+ACK
/// acknowledging `seq + 1` is returned. A RST is dropped silently; anything
/// else is answered with nothing and reported as unexpected.
pub open spec fn spec_listen_step(c: Connection, key: ConnectionKey, seg: SegmentMeta) -> (
    Connection,
    Result<Option<OutboundSegment>, EngineError>,
) {
    if seg.rst {
        (c, Ok(None))
    } else if !seg.syn {
        (c, Err(EngineError::UnexpectedFlagCombination))
    } else {
        let send = SendSequenceSpace {
            una: INITIAL_SEND_SEQ,
            nxt: seq_add(INITIAL_SEND_SEQ, 1),
            wnd: seg.wnd,
            up: false,
            wl1: seg.seq,
            wl2: seg.ack,
            iss: INITIAL_SEND_SEQ,
        };
        let recv = RecvSequenceSpace {
            nxt: seq_add(seg.seq, 1),
            wnd: RECEIVE_WINDOW_SIZE,
            up: false,
            irs: seg.seq,
        };
        let c2 = Connection { state: TcpState::SynRcvd, send: send, recv: recv, syn_ack_retries: 0 };
        (c2, Ok(Some(spec_syn_ack_segment(key, INITIAL_SEND_SEQ, seg.seq, RECEIVE_WINDOW_SIZE))))
    }
}

/// The transitions of a synchronized connection (`Estab` and later), for an
/// in-window segment that carries no RST. Only the segment at exactly the
/// expected sequence number is consumed; an in-window but out-of-order
/// segment is answered with a corrective ACK and changes nothing.
pub open spec fn spec_stream_step(c: Connection, key: ConnectionKey, seg: SegmentMeta) -> (
    Connection,
    Result<Option<OutboundSegment>, EngineError>,
) {
    if seg.seq != c.recv.nxt {
        (c, Ok(Some(spec_corrective_ack(c, key))))
    } else if seg.syn {
        (c, Err(EngineError::UnexpectedFlagCombination))
    } else {
        let send2 = if seg.ack_set {
            c.send.spec_on_ack(seg.ack, seg.seq, seg.wnd)
        } else {
            c.send
        };
        let slen = spec_segment_len(seg);
        let recv2 = RecvSequenceSpace { nxt: seq_add(c.recv.nxt, slen), ..c.recv };
        let reply = spec_ack_segment(key, c.send.nxt, recv2.nxt, c.recv.wnd);
        let fin_acked = spec_acks_everything(c, seg);
        match c.state {
            TcpState::Estab => {
                if seg.fin {
                    (Connection { state: TcpState::CloseWait, send: send2, recv: recv2, ..c }, Ok(Some(reply)))
                } else if seg.payload_len > 0 {
                    (Connection { send: send2, recv: recv2, ..c }, Ok(Some(reply)))
                } else {
                    (Connection { send: send2, ..c }, Ok(None))
                }
            }
            TcpState::FinWait1 => {
                if seg.fin {
                    let st = if fin_acked { TcpState::TimeWait } else { TcpState::Closing };
                    (Connection { state: st, send: send2, recv: recv2, ..c }, Ok(Some(reply)))
                } else if seg.payload_len > 0 {
                    let st = if fin_acked { TcpState::FinWait2 } else { TcpState::FinWait1 };
                    (Connection { state: st, send: send2, recv: recv2, ..c }, Ok(Some(reply)))
                } else {
                    let st = if fin_acked { TcpState::FinWait2 } else { TcpState::FinWait1 };
                    (Connection { state: st, send: send2, ..c }, Ok(None))
                }
            }
            TcpState::FinWait2 => {
                if seg.fin {
                    (Connection { state: TcpState::TimeWait, send: send2, recv: recv2, ..c }, Ok(Some(reply)))
                } else if seg.payload_len > 0 {
                    (Connection { send: send2, recv: recv2, ..c }, Ok(Some(reply)))
                } else {
                    (Connection { send: send2, ..c }, Ok(None))
                }
            }
            _ => {
                // Closing, TimeWait, CloseWait, LastAck: the peer has sent
                // its FIN, so no further data or FIN is owed at `recv.nxt`.
                if seg.fin || seg.payload_len > 0 {
                    (c, Ok(Some(spec_corrective_ack(c, key))))
                } else {
                    let st = match c.state {
                        TcpState::Closing => if fin_acked { TcpState::TimeWait } else { TcpState::Closing },
                        TcpState::LastAck => if fin_acked { TcpState::Closed } else { TcpState::LastAck },
                        _ => c.state,
                    };
                    (Connection { state: st, send: send2, ..c }, Ok(None))
                }
            }
        }
    }
}

/// The transitions of a connection past `Listen`, for an in-window segment
/// that carries no RST: completing the handshake in `SynRcvd`, and the
/// stream transitions afterwards.
pub open spec fn spec_connected_step(c: Connection, key: ConnectionKey, seg: SegmentMeta) -> (
    Connection,
    Result<Option<OutboundSegment>, EngineError>,
) {
    match c.state {
        TcpState::SynRcvd => {
            if seg.ack_set && seg.ack == seq_add(c.send.iss, 1) {
                let c2 = Connection {
                    state: TcpState::Estab,
                    send: c.send.spec_on_ack(seg.ack, seg.seq, seg.wnd),
                    ..c
                };
                (c2, Ok(None))
            } else {
                (c, Ok(None))
            }
        }
        _ => spec_stream_step(c, key, seg),
    }
}

/// One step of the state machine on one inbound segment: exactly what
/// `Connection::on_packet` does. Past `Listen`, a segment outside the
/// acceptance window is dropped — answered with a corrective ACK unless it
/// is a RST or a bare duplicate acknowledgment — and an in-window RST
/// discards the connection at once.
pub open spec fn spec_step(c: Connection, key: ConnectionKey, seg: SegmentMeta) -> (
    Connection,
    Result<Option<OutboundSegment>, EngineError>,
) {
    match c.state {
        TcpState::Closed => (c, Ok(None)),
        TcpState::Listen => spec_listen_step(c, key, seg),
        _ => {
            if !c.recv.spec_in_window(seg.seq, spec_segment_len(seg)) {
                if seg.rst || spec_is_bare_ack(seg) {
                    (c, Err(EngineError::OutOfWindowSegment))
                } else {
                    (c, Ok(Some(spec_corrective_ack(c, key))))
                }
            } else if seg.rst {
                (Connection { state: TcpState::Closed, ..c }, Ok(None))
            } else {
                spec_connected_step(c, key, seg)
            }
        }
    }
}

/// A local close: exactly what `Connection::close` does. In `Estab` or
/// `CloseWait` a FIN goes out and the state advances; elsewhere closing has
/// no effect.
pub open spec fn spec_close(c: Connection, key: ConnectionKey) -> (
    Connection,
    Option<OutboundSegment>,
) {
    if c.state == TcpState::Estab || c.state == TcpState::CloseWait {
        let st = if c.state == TcpState::Estab { TcpState::FinWait1 } else { TcpState::LastAck };
        let send2 = SendSequenceSpace { nxt: seq_add(c.send.nxt, 1), ..c.send };
        (
            Connection { state: st, send: send2, ..c },
            Some(spec_fin_segment(key, c.send.nxt, c.recv.nxt, c.recv.wnd)),
        )
    } else {
        (c, None)
    }
}

/// A timer expiry: exactly what `Connection::on_timer_expired` does. In
/// `SynRcvd` the SYN+ACK is retransmitted up to `MAX_RETRANSMITS` times and
/// the connection abandoned after that; `TimeWait` ends in `Closed`.
pub open spec fn spec_on_timer(c: Connection, key: ConnectionKey) -> (
    Connection,
    Option<OutboundSegment>,
) {
    match c.state {
        TcpState::SynRcvd => {
            if c.syn_ack_retries < MAX_RETRANSMITS {
                (
                    Connection { syn_ack_retries: (c.syn_ack_retries + 1) as u32, ..c },
                    Some(spec_syn_ack_segment(key, c.send.iss, c.recv.irs, c.recv.wnd)),
                )
            } else {
                (Connection { state: TcpState::Closed, ..c }, None)
            }
        }
        TcpState::TimeWait => (Connection { state: TcpState::Closed, ..c }, None),
        _ => (c, None),
    }
}

impl Connection {
    /// Validity of a connection's bookkeeping. The engine sends only a
    /// SYN+ACK and a FIN, never data, so at most one sequence number is ever
    /// in flight: in `SynRcvd` exactly the SYN+ACK, in the synchronized
    /// states before a local close nothing at all.
    pub open spec fn wf(self) -> bool {
        match self.state {
            TcpState::SynRcvd => self.send.una == self.send.iss && self.send.nxt == seq_add(
                self.send.iss,
                1,
            ),
            TcpState::Estab | TcpState::CloseWait => self.send.una == self.send.nxt,
            _ => seq_distance(self.send.una, self.send.nxt) <= 1,
        }
    }

    /// A fresh listening connection.
    pub fn listen() -> (c: Connection)
        ensures
            c == spec_listen_connection(),
            c.wf(),
    {
        Connection {
            state: TcpState::Listen,
            send: SendSequenceSpace { una: 0, nxt: 0, wnd: 0, up: false, wl1: 0, wl2: 0, iss: 0 },
            recv: RecvSequenceSpace { nxt: 0, wnd: 0, up: false, irs: 0 },
            syn_ack_retries: 0,
        }
    }

    /// Drive the state machine with one inbound segment, already decoded;
    /// returns at most one segment to transmit, or the reason the segment
    /// was dropped without a reply.
    pub fn on_packet(&mut self, key: &ConnectionKey, seg: &SegmentMeta) -> (r: Result<
        Option<OutboundSegment>,
        EngineError,
    >)
        requires
            old(self).wf(),
            seg.wf(),
        ensures
            (*final(self), r) == spec_step(*old(self), *key, *seg),
            final(self).wf(),
    {
        match self.state {
            TcpState::Closed => Ok(None),
            TcpState::Listen => {
                if seg.rst {
                    Ok(None)
                } else if !seg.syn {
                    Err(EngineError::UnexpectedFlagCombination)
                } else {
                    proof {
                        lemma_seq_add_distance(INITIAL_SEND_SEQ, 1);
                    }
                    self.send = SendSequenceSpace {
                        una: INITIAL_SEND_SEQ,
                        nxt: seq_plus(INITIAL_SEND_SEQ, 1),
                        wnd: seg.wnd,
                        up: false,
                        wl1: seg.seq,
                        wl2: seg.ack,
                        iss: INITIAL_SEND_SEQ,
                    };
                    self.recv = RecvSequenceSpace {
                        nxt: seq_plus(seg.seq, 1),
                        wnd: RECEIVE_WINDOW_SIZE,
                        up: false,
                        irs: seg.seq,
                    };
                    self.state = TcpState::SynRcvd;
                    self.syn_ack_retries = 0;
                    Ok(Some(OutboundSegment::syn_ack_segment(key, INITIAL_SEND_SEQ, seg.seq, RECEIVE_WINDOW_SIZE)))
                }
            }
            _ => {
                let slen = segment_len(seg);
                if !self.recv.is_in_receive_window(seg.seq, slen) {
                    if seg.rst || (seg.ack_set && !seg.syn && !seg.fin && seg.payload_len == 0) {
                        Err(EngineError::OutOfWindowSegment)
                    } else {
                        Ok(Some(OutboundSegment::ack_segment(key, self.send.nxt, self.recv.nxt, self.recv.wnd)))
                    }
                } else if seg.rst {
                    self.state = TcpState::Closed;
                    Ok(None)
                } else {
                    self.on_accepted_segment(key, seg)
                }
            }
        }
    }

    /// The in-window, non-RST part of `on_packet`, past `Listen`.
    fn on_accepted_segment(&mut self, key: &ConnectionKey, seg: &SegmentMeta) -> (r: Result<
        Option<OutboundSegment>,
        EngineError,
    >)
        requires
            old(self).wf(),
            seg.wf(),
            old(self).state != TcpState::Closed,
            old(self).state != TcpState::Listen,
            old(self).recv.spec_in_window(seg.seq, spec_segment_len(*seg)),
            !seg.rst,
        ensures
            (*final(self), r) == spec_connected_step(*old(self), *key, *seg),
            final(self).wf(),
    {
        match self.state {
            TcpState::SynRcvd => {
                if seg.ack_set && seg.ack == seq_plus(self.send.iss, 1) {
                    self.send.on_ack(seg.ack, seg.seq, seg.wnd);
                    self.state = TcpState::Estab;
                    proof {
                        lemma_handshake_ack_lands(*old(self), *seg);
                    }
                }
                Ok(None)
            }
            _ => self.on_stream_segment(key, seg),
        }
    }

    /// The stream transitions (`Estab` and later) of `on_packet`.
    fn on_stream_segment(&mut self, key: &ConnectionKey, seg: &SegmentMeta) -> (r: Result<
        Option<OutboundSegment>,
        EngineError,
    >)
        requires
            old(self).wf(),
            seg.wf(),
            !seg.rst,
            !(old(self).state == TcpState::Closed || old(self).state == TcpState::Listen
                || old(self).state == TcpState::SynRcvd),
        ensures
            (*final(self), r) == spec_stream_step(*old(self), *key, *seg),
            final(self).wf(),
    {
        if seg.seq != self.recv.nxt {
            return Ok(Some(OutboundSegment::ack_segment(key, self.send.nxt, self.recv.nxt, self.recv.wnd)));
        }
        if seg.syn {
            return Err(EngineError::UnexpectedFlagCombination);
        }
        let slen = segment_len(seg);
        let fin_acked = seg.ack_set && seg.ack == self.send.nxt;
        match self.state {
            TcpState::Estab => {
                if seg.ack_set {
                    self.send.on_ack(seg.ack, seg.seq, seg.wnd);
                }
                if seg.fin {
                    self.recv.on_receive(slen);
                    self.state = TcpState::CloseWait;
                    Ok(Some(OutboundSegment::ack_segment(key, self.send.nxt, self.recv.nxt, self.recv.wnd)))
                } else if seg.payload_len > 0 {
                    self.recv.on_receive(slen);
                    Ok(Some(OutboundSegment::ack_segment(key, self.send.nxt, self.recv.nxt, self.recv.wnd)))
                } else {
                    Ok(None)
                }
            }
            TcpState::FinWait1 => {
                if seg.ack_set {
                    self.send.on_ack(seg.ack, seg.seq, seg.wnd);
                }
                if seg.fin {
                    self.recv.on_receive(slen);
                    self.state = if fin_acked { TcpState::TimeWait } else { TcpState::Closing };
                    Ok(Some(OutboundSegment::ack_segment(key, self.send.nxt, self.recv.nxt, self.recv.wnd)))
                } else if seg.payload_len > 0 {
                    self.recv.on_receive(slen);
                    self.state = if fin_acked { TcpState::FinWait2 } else { TcpState::FinWait1 };
                    Ok(Some(OutboundSegment::ack_segment(key, self.send.nxt, self.recv.nxt, self.recv.wnd)))
                } else {
                    self.state = if fin_acked { TcpState::FinWait2 } else { TcpState::FinWait1 };
                    Ok(None)
                }
            }
            TcpState::FinWait2 => {
                if seg.ack_set {
                    self.send.on_ack(seg.ack, seg.seq, seg.wnd);
                }
                if seg.fin {
                    self.recv.on_receive(slen);
                    self.state = TcpState::TimeWait;
                    Ok(Some(OutboundSegment::ack_segment(key, self.send.nxt, self.recv.nxt, self.recv.wnd)))
                } else if seg.payload_len > 0 {
                    self.recv.on_receive(slen);
                    Ok(Some(OutboundSegment::ack_segment(key, self.send.nxt, self.recv.nxt, self.recv.wnd)))
                } else {
                    Ok(None)
                }
            }
            _ => {
                if seg.fin || seg.payload_len > 0 {
                    Ok(Some(OutboundSegment::ack_segment(key, self.send.nxt, self.recv.nxt, self.recv.wnd)))
                } else {
                    if seg.ack_set {
                        self.send.on_ack(seg.ack, seg.seq, seg.wnd);
                    }
                    match self.state {
                        TcpState::Closing => {
                            if fin_acked {
                                self.state = TcpState::TimeWait;
                            }
                        }
                        TcpState::LastAck => {
                            if fin_acked {
                                self.state = TcpState::Closed;
                            }
                        }
                        _ => {}
                    }
                    Ok(None)
                }
            }
        }
    }

    /// Request a local close: in `Estab` or `CloseWait` this sends a FIN and
    /// moves to `FinWait1` or `LastAck`; in any other state it does nothing.
    pub fn close(&mut self, key: &ConnectionKey) -> (r: Option<OutboundSegment>)
        requires
            old(self).wf(),
        ensures
            (*final(self), r) == spec_close(*old(self), *key),
            final(self).wf(),
    {
        match self.state {
            TcpState::Estab | TcpState::CloseWait => {
                let reply = OutboundSegment::fin_segment(key, self.send.nxt, self.recv.nxt, self.recv.wnd);
                self.state = if matches!(self.state, TcpState::Estab) {
                    TcpState::FinWait1
                } else {
                    TcpState::LastAck
                };
                self.send.on_send(1);
                Some(reply)
            }
            _ => None,
        }
    }

    /// A pending timer for this connection has expired: retransmit the
    /// SYN+ACK (up to the bound) in `SynRcvd`, leave `TimeWait` for
    /// `Closed`; elsewhere nothing is due.
    pub fn on_timer_expired(&mut self, key: &ConnectionKey) -> (r: Option<OutboundSegment>)
        requires
            old(self).wf(),
        ensures
            (*final(self), r) == spec_on_timer(*old(self), *key),
            final(self).wf(),
    {
        match self.state {
            TcpState::SynRcvd => {
                if self.syn_ack_retries < MAX_RETRANSMITS {
                    self.syn_ack_retries = self.syn_ack_retries + 1;
                    Some(OutboundSegment::syn_ack_segment(key, self.send.iss, self.recv.irs, self.recv.wnd))
                } else {
                    self.state = TcpState::Closed;
                    None
                }
            }
            TcpState::TimeWait => {
                self.state = TcpState::Closed;
                None
            }
            _ => None,
        }
    }
}

impl Default for Connection {
    /// A fresh listening connection, as `Connection::listen`.
    fn default() -> (c: Connection)
        ensures
            c == spec_listen_connection(),
            c.wf(),
    {
        Connection::listen()
    }
}

/// The opening half of the handshake: a SYN reaching a listening connection
/// is answered with a SYN+ACK whose acknowledgment number is exactly the
/// SYN's sequence number plus one, and whose own sequence number is the
/// freshly chosen initial send sequence; the connection waits in `SynRcvd`.
pub proof fn lemma_handshake_syn_ack(c: Connection, key: ConnectionKey, seg: SegmentMeta)
    requires
        c.state == TcpState::Listen,
        seg.syn,
        !seg.rst,
    ensures
        ({
            let (c2, r) = spec_step(c, key, seg);
            &&& c2.state == TcpState::SynRcvd
            &&& r is Ok
            &&& r.unwrap() is Some
            &&& r.unwrap().unwrap().syn
            &&& r.unwrap().unwrap().ack_set
            &&& r.unwrap().unwrap().ack == seq_add(seg.seq, 1)
            &&& r.unwrap().unwrap().seq == c2.send.iss
        }),
{
}

/// The closing half of the handshake: in `SynRcvd`, an in-window segment
/// without a RST completes the connection exactly when it acknowledges the
/// SYN+ACK — `ack == iss + 1` — and not otherwise.
pub proof fn lemma_handshake_completion(c: Connection, key: ConnectionKey, seg: SegmentMeta)
    requires
        c.state == TcpState::SynRcvd,
        c.recv.spec_in_window(seg.seq, spec_segment_len(seg)),
        !seg.rst,
    ensures
        spec_step(c, key, seg).0.state == TcpState::Estab <==> (seg.ack_set && seg.ack == seq_add(
            c.send.iss,
            1,
        )),
{
}

/// A segment outside the acceptance window is dropped: past `Listen`, it
/// moves neither the receive space — in particular `recv.nxt` — nor the
/// send space, whatever it carried.
pub proof fn lemma_out_of_window_ignored(c: Connection, key: ConnectionKey, seg: SegmentMeta)
    requires
        c.state != TcpState::Listen,
        !c.recv.spec_in_window(seg.seq, spec_segment_len(seg)),
    ensures
        spec_step(c, key, seg).0.recv == c.recv,
        spec_step(c, key, seg).0.send == c.send,
{
}

/// A stale window update is never taken: past `Listen`, a segment whose
/// `(seq, ack)` pair orders strictly earlier than the last recorded update
/// leaves the advertised send window untouched, even when its
/// acknowledgment is otherwise acceptable.
pub proof fn lemma_stale_update_ignored_by_step(c: Connection, key: ConnectionKey, seg: SegmentMeta)
    requires
        c.state != TcpState::Listen,
        !c.send.spec_window_update_due(seg.seq, seg.ack),
    ensures
        spec_step(c, key, seg).0.send.wnd == c.send.wnd,
{
}

/// An in-window RST discards the connection at once, in every state past
/// `Listen`.
pub proof fn lemma_rst_closes(c: Connection, key: ConnectionKey, seg: SegmentMeta)
    requires
        c.state != TcpState::Listen,
        c.state != TcpState::Closed,
        seg.rst,
        c.recv.spec_in_window(seg.seq, spec_segment_len(seg)),
    ensures
        spec_step(c, key, seg).0.state == TcpState::Closed,
{
}

/// Teardown symmetry. A local close in `Estab` sends a FIN and waits in
/// `FinWait1`. From there the two interleavings mirror each other: if the
/// peer's own FIN arrives first (simultaneous close), the connection passes
/// through `Closing`, reaches `TimeWait` when the FIN is acknowledged, and
/// `Closed` when the wait elapses; if the acknowledgment of the local FIN
/// arrives first (sequential close), it passes through `FinWait2`, reaches
/// `TimeWait` on the peer's FIN, and `Closed` likewise.
///
/// `peer_fin` is the peer's bare FIN at the expected sequence number, not
/// yet acknowledging the local FIN; `ack_first` and `ack_late` are the
/// peer's bare acknowledgment of the local FIN, sent respectively before
/// and after its own FIN consumed one sequence number.
pub proof fn lemma_teardown_symmetry(
    c: Connection,
    key: ConnectionKey,
    peer_fin: SegmentMeta,
    ack_first: SegmentMeta,
    ack_late: SegmentMeta,
)
    requires
        c.state == TcpState::Estab,
        c.wf(),
        c.recv.wnd > 0,
        peer_fin.fin && !peer_fin.syn && !peer_fin.rst && peer_fin.payload_len == 0,
        peer_fin.seq == c.recv.nxt,
        peer_fin.ack_set ==> peer_fin.ack != seq_add(c.send.nxt, 1),
        ack_first.ack_set && !ack_first.syn && !ack_first.fin && !ack_first.rst
            && ack_first.payload_len == 0,
        ack_first.seq == c.recv.nxt,
        ack_first.ack == seq_add(c.send.nxt, 1),
        ack_late == (SegmentMeta { seq: seq_add(c.recv.nxt, 1), ..ack_first }),
    ensures
        ({
            let (c1, f) = spec_close(c, key);
            let (c2s, _) = spec_step(c1, key, peer_fin);
            let (c3s, _) = spec_step(c2s, key, ack_late);
            let (c4s, _) = spec_on_timer(c3s, key);
            let (c2q, _) = spec_step(c1, key, ack_first);
            let (c3q, _) = spec_step(c2q, key, peer_fin);
            let (c4q, _) = spec_on_timer(c3q, key);
            &&& c1.state == TcpState::FinWait1
            &&& f is Some && f.unwrap().fin
            &&& c2s.state == TcpState::Closing
            &&& c3s.state == TcpState::TimeWait
            &&& c4s.state == TcpState::Closed
            &&& c2q.state == TcpState::FinWait2
            &&& c3q.state == TcpState::TimeWait
            &&& c4q.state == TcpState::Closed
        }),
{
    lemma_seq_add_distance(c.send.nxt, 1);
}

/// In `SynRcvd`, the awaited acknowledgment `iss + 1` is acceptable and
/// brings `una` up to `nxt`, so the connection enters `Estab` with nothing
/// in flight.
proof fn lemma_handshake_ack_lands(c: Connection, seg: SegmentMeta)
    requires
        c.wf(),
        c.state == TcpState::SynRcvd,
        seg.ack_set,
        seg.ack == seq_add(c.send.iss, 1),
    ensures
        ({
            let s2 = c.send.spec_on_ack(seg.ack, seg.seq, seg.wnd);
            s2.una == s2.nxt
        }),
{
    lemma_seq_add_distance(c.send.iss, 1);
}

} // verus!


