//! Sliding-window bookkeeping for the two directions of one connection
//! (RFC 793 section 3.2, figures 4 and 5).

use vstd::prelude::*;
use crate::seqnum::{
    seq_add, seq_distance, seq_le, seq_lt, distance, lemma_distance_split, seq_plus, wrapping_le,
    wrapping_lt, SEQ_HALF,
};

verus! {

/// Send sequence space: bytes in `[una, nxt)` are sent but unacknowledged;
/// bytes at or above `nxt` are not yet sent; the peer currently accepts
/// `[una, una + wnd)`.
#[derive(Clone, Copy, PartialEq, Eq, Structural, Debug)]
pub struct SendSequenceSpace {
    /// Send unacknowledged.
    pub una: u32,
    /// Send next.
    pub nxt: u32,
    /// Send window, as last advertised by the peer.
    pub wnd: u16,
    /// Send urgent pointer present.
    pub up: bool,
    /// Segment sequence number used for the last window update.
    pub wl1: u32,
    /// Segment acknowledgment number used for the last window update.
    pub wl2: u32,
    /// Initial send sequence number.
    pub iss: u32,
}

/// Receive sequence space: bytes below `nxt` are received and acknowledged;
/// `[nxt, nxt + wnd)` is the acceptance window.
#[derive(Clone, Copy, PartialEq, Eq, Structural, Debug)]
pub struct RecvSequenceSpace {
    /// Receive next.
    pub nxt: u32,
    /// Receive window.
    pub wnd: u16,
    /// Receive urgent pointer present.
    pub up: bool,
    /// Initial receive sequence number.
    pub irs: u32,
}

impl SendSequenceSpace {
    /// `una` never runs ahead of `nxt`: the unacknowledged range is a
    /// well-formed interval of the circular space, shorter than half of it.
    pub open spec fn wf(self) -> bool {
        seq_distance(self.una, self.nxt) < SEQ_HALF
    }

    /// An acknowledgment number is acceptable when it acknowledges something
    /// sent and not yet acknowledged: `una < ack <= nxt` in wraparound order.
    pub open spec fn spec_ack_acceptable(self, ack: u32) -> bool {
        seq_lt(self.una, ack) && seq_le(ack, self.nxt)
    }

    /// A window update from a segment `(seq, ack)` is taken only when that
    /// pair is ordered no earlier than the last recorded update `(wl1, wl2)`,
    /// so an out-of-order duplicate cannot revert the window to a stale value.
    pub open spec fn spec_window_update_due(self, seq: u32, ack: u32) -> bool {
        seq_lt(self.wl1, seq) || (self.wl1 == seq && seq_le(self.wl2, ack))
    }

    /// The send space after an acknowledgment `(seq, ack, advertised_wnd)`:
    /// an acceptable `ack` advances `una`; the window follows the segment's
    /// advertisement only when the update is due.
    pub open spec fn spec_on_ack(self, ack: u32, seq: u32, advertised_wnd: u16) -> SendSequenceSpace {
        if self.spec_ack_acceptable(ack) {
            if self.spec_window_update_due(seq, ack) {
                SendSequenceSpace { una: ack, wnd: advertised_wnd, wl1: seq, wl2: ack, ..self }
            } else {
                SendSequenceSpace { una: ack, ..self }
            }
        } else {
            self
        }
    }

    /// Executable acceptability test for an acknowledgment number.
    pub fn ack_acceptable(&self, ack: u32) -> (r: bool)
        ensures
            r == self.spec_ack_acceptable(ack),
    {
        wrapping_lt(self.una, ack) && wrapping_le(ack, self.nxt)
    }

    /// Process one acknowledgment. Returns whether `ack` was acceptable.
    pub fn on_ack(&mut self, ack: u32, seq: u32, advertised_wnd: u16) -> (accepted: bool)
        requires
            old(self).wf(),
        ensures
            accepted == old(self).spec_ack_acceptable(ack),
            *final(self) == old(self).spec_on_ack(ack, seq, advertised_wnd),
            final(self).wf(),
            seq_distance(final(self).una, final(self).nxt)
                <= seq_distance(old(self).una, old(self).nxt),
    {
        proof {
            if self.spec_ack_acceptable(ack) {
                lemma_ack_shrinks_flight(*self, ack);
            }
        }
        if self.ack_acceptable(ack) {
            self.una = ack;
            if wrapping_lt(self.wl1, seq) || (self.wl1 == seq && wrapping_le(self.wl2, ack)) {
                self.wnd = advertised_wnd;
                self.wl1 = seq;
                self.wl2 = ack;
            }
            true
        } else {
            false
        }
    }

    /// Record that a segment occupying `len` sequence numbers was sent.
    pub fn on_send(&mut self, len: u32)
        requires
            old(self).wf(),
            seq_distance(old(self).una, old(self).nxt) + len < SEQ_HALF,
        ensures
            *final(self) == (SendSequenceSpace { nxt: seq_add(old(self).nxt, len), ..*old(self) }),
            final(self).wf(),
            seq_distance(final(self).una, final(self).nxt)
                == seq_distance(old(self).una, old(self).nxt) + len,
    {
        proof {
            crate::seqnum::lemma_seq_add_distance(self.nxt, len);
            lemma_distance_split(self.una, self.nxt, seq_add(self.nxt, len));
        }
        self.nxt = seq_plus(self.nxt, len);
    }
}

/// An acceptable acknowledgment moves `una` toward `nxt`, never past it:
/// the unacknowledged range only shrinks.
proof fn lemma_ack_shrinks_flight(s: SendSequenceSpace, ack: u32)
    requires
        s.wf(),
        s.spec_ack_acceptable(ack),
    ensures
        seq_distance(ack, s.nxt) < SEQ_HALF,
        seq_distance(ack, s.nxt) <= seq_distance(s.una, s.nxt),
{
    if ack != s.nxt {
        lemma_distance_split(s.una, ack, s.nxt);
    }
}

impl RecvSequenceSpace {
    /// RFC 793 acceptance test, as the specification's overlap phrasing: a
    /// segment of length `len` starting at `seq` is acceptable when some part
    /// of it falls within `[nxt, nxt + wnd)` — its first or its last occupied
    /// sequence number lies in the window. A segment occupying no sequence
    /// numbers is acceptable exactly when it does not lag behind the window:
    /// at `nxt` itself, or inside the window.
    pub open spec fn spec_in_window(self, seq: u32, len: u32) -> bool {
        if len == 0 {
            seq == self.nxt || seq_distance(self.nxt, seq) < self.wnd
        } else {
            seq_distance(self.nxt, seq) < self.wnd
                || seq_distance(self.nxt, seq_add(seq, (len - 1) as u32)) < self.wnd
        }
    }

    /// Executable acceptance test for a segment occupying `len` sequence
    /// numbers starting at `seq`.
    pub fn is_in_receive_window(&self, seq: u32, len: u32) -> (r: bool)
        ensures
            r == self.spec_in_window(seq, len),
    {
        if len == 0 {
            seq == self.nxt || distance(self.nxt, seq) < self.wnd as u32
        } else {
            distance(self.nxt, seq) < self.wnd as u32
                || distance(self.nxt, seq_plus(seq, len - 1)) < self.wnd as u32
        }
    }

    /// Record that a segment occupying `len` sequence numbers was accepted:
    /// the next expected sequence number advances past it.
    pub fn on_receive(&mut self, len: u32)
        ensures
            *final(self) == (RecvSequenceSpace { nxt: seq_add(old(self).nxt, len), ..*old(self) }),
    {
        self.nxt = seq_plus(self.nxt, len);
    }
}

/// Stale window updates are ignored: an acknowledgment whose `(seq, ack)`
/// pair orders strictly earlier than the last recorded update leaves the send
/// window unchanged, even when the acknowledgment itself is acceptable.
pub proof fn lemma_stale_update_keeps_window(
    s: SendSequenceSpace,
    ack: u32,
    seq: u32,
    advertised_wnd: u16,
)
    requires
        !s.spec_window_update_due(seq, ack),
    ensures
        s.spec_on_ack(ack, seq, advertised_wnd).wnd == s.wnd,
        s.spec_on_ack(ack, seq, advertised_wnd).wl1 == s.wl1,
        s.spec_on_ack(ack, seq, advertised_wnd).wl2 == s.wl2,
{
}

/// A segment that lies entirely before the window is unacceptable: when its
/// last occupied sequence number still lags behind `nxt` (and the whole
/// segment sits within half the space behind it), the acceptance test fails.
pub proof fn lemma_old_segment_unacceptable(r: RecvSequenceSpace, seq: u32, len: u32)
    requires
        len > 0,
        len < SEQ_HALF,
        seq_lt(seq_add(seq, (len - 1) as u32), r.nxt),
        seq_distance(seq, r.nxt) < SEQ_HALF,
    ensures
        !r.spec_in_window(seq, len),
{
    let m = 0x1_0000_0000int;
    let last = seq_add(seq, (len - 1) as u32);
    crate::seqnum::lemma_seq_add_distance(seq, (len - 1) as u32);
    lemma_distance_split(seq, last, r.nxt);
    assert(seq_distance(seq, r.nxt) > 0);
    assert(seq_distance(r.nxt, seq) + seq_distance(seq, r.nxt) == m);
    assert(seq_distance(r.nxt, last) + seq_distance(last, r.nxt) == m);
}

} // verus!
