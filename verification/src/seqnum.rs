//! 32-bit wraparound sequence-number arithmetic (RFC 793 section 3.3).
//!
//! TCP sequence numbers live in a circular space of size 2^32; a connection
//! can run long enough to wrap, so every comparison must go by the signed
//! distance between two numbers, never by raw numeric order.

use vstd::prelude::*;

verus! {

/// Half of the sequence space, 2^31: `a` is "before" `b` exactly when the
/// forward distance from `a` to `b` is below this.
pub const SEQ_HALF: u32 = 0x8000_0000;

/// Forward distance from `a` to `b` in the circular space: the number of
/// steps that take `a` to `b` going upward with wraparound.
pub open spec fn seq_distance(a: u32, b: u32) -> u32 {
    if b - a < 0 {
        (b - a + 0x1_0000_0000) as u32
    } else {
        (b - a) as u32
    }
}

/// `a` strictly precedes `b` under wraparound ordering: the forward distance
/// from `a` to `b` is nonzero and below 2^31.
pub open spec fn seq_lt(a: u32, b: u32) -> bool {
    seq_distance(a, b) != 0 && seq_distance(a, b) < SEQ_HALF
}

/// `a` precedes or equals `b` under wraparound ordering.
pub open spec fn seq_le(a: u32, b: u32) -> bool {
    a == b || seq_lt(a, b)
}

/// `a + n` in the circular space.
pub open spec fn seq_add(a: u32, n: u32) -> u32 {
    if a + n > u32::MAX {
        (a + n - 0x1_0000_0000) as u32
    } else {
        (a + n) as u32
    }
}

/// Executable wraparound comparison: `a` strictly precedes `b`.
pub fn wrapping_lt(a: u32, b: u32) -> (r: bool)
    ensures
        r == seq_lt(a, b),
{
    let d = b.wrapping_sub(a);
    d != 0 && d < SEQ_HALF
}

/// Executable wraparound comparison: `a` precedes or equals `b`.
pub fn wrapping_le(a: u32, b: u32) -> (r: bool)
    ensures
        r == seq_le(a, b),
{
    a == b || wrapping_lt(a, b)
}

/// Executable circular addition.
pub fn seq_plus(a: u32, n: u32) -> (r: u32)
    ensures
        r == seq_add(a, n),
{
    a.wrapping_add(n)
}

/// Executable forward distance.
pub fn distance(a: u32, b: u32) -> (r: u32)
    ensures
        r == seq_distance(a, b),
{
    b.wrapping_sub(a)
}

/// Distances compose: going from `a` to `b` and on from `b` to `c` covers the
/// distance from `a` to `c`, as long as the two legs together stay under one
/// full turn of the circle.
pub proof fn lemma_distance_split(a: u32, b: u32, c: u32)
    requires
        seq_distance(a, b) + seq_distance(b, c) < 0x1_0000_0000,
    ensures
        seq_distance(a, c) == seq_distance(a, b) + seq_distance(b, c),
{
}

/// Wraparound ordering is transitive only within half the space: from
/// `seq_lt(a, b)` and `seq_lt(b, c)` alone, `c` may lie more than 2^31 ahead
/// of `a`; with the distance from `a` to `c` bounded by 2^31 the ordering
/// carries over. Outside that bound it fails, e.g. for three points spread
/// evenly around the circle.
pub proof fn lemma_seq_lt_transitive(a: u32, b: u32, c: u32)
    requires
        seq_lt(a, b),
        seq_lt(b, c),
        seq_distance(a, c) < SEQ_HALF,
    ensures
        seq_lt(a, c),
{
    lemma_distance_split(a, b, c);
}

/// Wraparound ordering is asymmetric: two distinct numbers are never each
/// strictly before the other.
pub proof fn lemma_seq_lt_asymmetric(a: u32, b: u32)
    requires
        seq_lt(a, b),
    ensures
        !seq_lt(b, a),
{
}

/// Adding `n` moves a number exactly `n` forward, for `n` under 2^31: the
/// base strictly precedes the sum whenever `n` is nonzero.
pub proof fn lemma_seq_add_distance(a: u32, n: u32)
    requires
        n < SEQ_HALF,
    ensures
        seq_distance(a, seq_add(a, n)) == n,
        n != 0 ==> seq_lt(a, seq_add(a, n)),
{
}

} // verus!
