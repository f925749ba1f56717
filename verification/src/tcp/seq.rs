//! Comparison of 32-bit sequence numbers that wrap around.
//!
//! Sequence numbers live on a circle of 2^32 points, and all arithmetic on
//! them wraps. Two of them are ordered by the RFC 1323 rule: `a` comes before
//! `b` when `b` is ahead of `a` by less than 2^31.

use vstd::prelude::*;

verus! {

/// Half of the circle: the largest distance over which order is meaningful.
pub const HALF_SPACE: u32 = 0x8000_0000;

/// `lhs` comes strictly before `rhs`: `lhs - rhs`, taken modulo 2^32, is
/// more than 2^31.
pub open spec fn spec_wrapping_lt(lhs: u32, rhs: u32) -> bool {
    lhs.wrapping_sub(rhs) > HALF_SPACE
}

/// `x` lies strictly between `start` and `end`.
pub open spec fn spec_is_between_wrapped(start: u32, x: u32, end: u32) -> bool {
    spec_wrapping_lt(start, x) && spec_wrapping_lt(x, end)
}

/// Whether `lhs` comes strictly before `rhs` in sequence space.
#[verifier::when_used_as_spec(spec_wrapping_lt)]
pub fn wrapping_lt(lhs: u32, rhs: u32) -> (r: bool)
    ensures
        r == spec_wrapping_lt(lhs, rhs),
        r == ((lhs - rhs) % 0x1_0000_0000 > 0x8000_0000),
{
    // From RFC 1323:
    //     TCP determines if a data segment is "old" or "new" by testing
    //     whether its sequence number is within 2**31 bytes of the left edge
    //     of the window, and if it is not, discarding the data as "old".  To
    //     insure that new data is never mistakenly considered old and vice-
    //     versa, the left edge of the sender's window has to be at most
    //     2**31 away from the right edge of the receiver's window.
    lhs.wrapping_sub(rhs) > HALF_SPACE
}

/// Whether `x` lies strictly between `start` and `end` in sequence space.
#[verifier::when_used_as_spec(spec_is_between_wrapped)]
pub fn is_between_wrapped(start: u32, x: u32, end: u32) -> (r: bool)
    ensures
        r == spec_is_between_wrapped(start, x, end),
{
    wrapping_lt(start, x) && wrapping_lt(x, end)
}

/// Wrapping subtraction and addition of sequence numbers are subtraction and
/// addition modulo 2^32.
pub proof fn lemma_wrapping_is_modular(a: u32, b: u32)
    ensures
        a.wrapping_sub(b) == (a - b) % 0x1_0000_0000,
        a.wrapping_add(b) == (a + b) % 0x1_0000_0000,
{
}

/// `a` comes strictly before `b` exactly when `b` is ahead of `a` by less
/// than half the circle.
pub proof fn lemma_before_is_ahead(a: u32, b: u32)
    ensures
        wrapping_lt(a, b) <==> 0 < b.wrapping_sub(a) < HALF_SPACE,
{
}

/// Seen from `a`, the strict order of sequence numbers is the order of
/// their distances from `a`: when `c` is less than half the circle ahead of
/// `a`, then `b` lies strictly between `a` and `c` exactly when `b` is ahead
/// of `a` and `c` is further ahead than `b`.
pub proof fn lemma_between_is_linear(a: u32, b: u32, c: u32)
    requires
        c.wrapping_sub(a) < HALF_SPACE,
    ensures
        is_between_wrapped(a, b, c) <==> 0 < b.wrapping_sub(a) < c.wrapping_sub(a),
{
}

/// Neither end of an interval lies strictly inside it.
pub proof fn lemma_between_excludes_ends(a: u32, c: u32)
    ensures
        !is_between_wrapped(a, a, c),
        !is_between_wrapped(a, c, c),
{
}

/// The window test of RFC 793: `x` lies strictly between `nxt - 1` and
/// `nxt + wnd` exactly when it is one of the `wnd` numbers from `nxt` on.
pub proof fn lemma_window(nxt: u32, wnd: u16, x: u32)
    requires
        wnd > 0,
    ensures
        is_between_wrapped(nxt.wrapping_sub(1), x, nxt.wrapping_add(wnd as u32)) <==> x.wrapping_sub(
            nxt,
        ) < wnd,
{
}

} // verus!
