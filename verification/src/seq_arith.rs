//! Arithmetic on the 32-bit TCP sequence space.
//!
//! Sequence numbers live on a circle of 2^32 points, so "before" and "after"
//! are decided by the distance travelled forward from one number to the
//! other, never by comparing the numbers as plain integers.

use vstd::prelude::*;

verus! {

/// Number of points in the sequence space.
pub open spec fn seq_space() -> int {
    0x1_0000_0000
}

/// Half of the sequence space: the distance at which ordering stops being
/// meaningful.
pub open spec fn half_space() -> int {
    0x8000_0000
}

/// How far one has to walk forward on the circle to get from `from` to `to`.
pub open spec fn distance(from: u32, to: u32) -> int {
    (to - from) % seq_space()
}

/// The sequence number `n` steps after `a`.
pub open spec fn advance(a: u32, n: int) -> u32 {
    ((a + n) % seq_space()) as u32
}

/// `a` is before `b`: the 32-bit difference `a - b`, read as a signed
/// number, is negative.
pub open spec fn spec_less_than(a: u32, b: u32) -> bool {
    distance(b, a) >= half_space()
}

/// `a` is before `b`, or is `b`.
pub open spec fn spec_less_or_equal(a: u32, b: u32) -> bool {
    a == b || spec_less_than(a, b)
}

/// `seq` lies in the half-open range of `size` numbers that starts at
/// `start`, wrapping through zero where the range does.
pub open spec fn spec_in_window(seq: u32, start: u32, size: u32) -> bool {
    distance(start, seq) < size
}

/// `seq` lies in the closed range from `low` to `high`, walking forward
/// from `low`.
pub open spec fn spec_in_closed_range(low: u32, seq: u32, high: u32) -> bool {
    distance(low, seq) <= distance(low, high)
}

/// Forward distance from `from` to `to`.
pub fn forward_distance(from: u32, to: u32) -> (d: u32)
    ensures
        d == distance(from, to),
{
    to.wrapping_sub(from)
}

/// The sequence number `n` steps after `a`.
pub fn add_wrapping(a: u32, n: u32) -> (r: u32)
    ensures
        r == advance(a, n as int),
        distance(a, r) == n,
{
    a.wrapping_add(n)
}

/// The sequence number `n` steps before `a`.
pub fn sub_wrapping(a: u32, n: u32) -> (r: u32)
    ensures
        r == advance(a, -(n as int)),
        distance(r, a) == n,
{
    a.wrapping_sub(n)
}

/// Wraparound-aware `a < b`.
pub fn less_than(a: u32, b: u32) -> (r: bool)
    ensures
        r == spec_less_than(a, b),
{
    a.wrapping_sub(b) >= 0x8000_0000
}

/// Wraparound-aware `a <= b`.
pub fn less_or_equal(a: u32, b: u32) -> (r: bool)
    ensures
        r == spec_less_or_equal(a, b),
{
    a == b || less_than(a, b)
}

/// Whether `seq` lies in `[start, start + size)` modulo 2^32.
pub fn in_window(seq: u32, start: u32, size: u32) -> (r: bool)
    ensures
        r == spec_in_window(seq, start, size),
{
    seq.wrapping_sub(start) < size
}

/// Whether `seq` lies in `[low, high]`, walking forward from `low`.
pub fn in_closed_range(low: u32, seq: u32, high: u32) -> (r: bool)
    ensures
        r == spec_in_closed_range(low, seq, high),
{
    seq.wrapping_sub(low) <= high.wrapping_sub(low)
}

/// Ordering is transitive as long as the walk from `a` through `b` to `c`
/// stays shorter than half the sequence space. At exactly half the space
/// and beyond, the chain may wrap past `a` and the conclusion fails.
pub proof fn lemma_less_than_transitive(a: u32, b: u32, c: u32)
    requires
        spec_less_than(a, b),
        spec_less_than(b, c),
        distance(a, b) + distance(b, c) < half_space(),
    ensures
        spec_less_than(a, c),
        distance(a, c) == distance(a, b) + distance(b, c),
{
}

/// Two numbers exactly half the space apart are each before the other:
/// the ordering carries no information at that distance.
pub proof fn lemma_half_space_is_ambiguous(a: u32, b: u32)
    requires
        distance(a, b) == half_space(),
    ensures
        spec_less_than(a, b),
        spec_less_than(b, a),
{
}

/// Strictly inside half the space, exactly one of two distinct numbers is
/// before the other.
pub proof fn lemma_less_than_antisymmetric(a: u32, b: u32)
    requires
        a != b,
        distance(a, b) != half_space(),
    ensures
        spec_less_than(a, b) != spec_less_than(b, a),
        spec_less_than(a, b) <==> 0 < distance(a, b) < half_space(),
{
}

/// The left edge of a non-empty window is inside it.
pub proof fn lemma_window_contains_start(start: u32, size: u32)
    requires
        size > 0,
    ensures
        spec_in_window(start, start, size),
{
}

/// An empty window contains nothing, not even its own left edge.
pub proof fn lemma_empty_window(seq: u32, start: u32)
    ensures
        !spec_in_window(seq, start, 0),
{
}

/// The right edge of a window is outside it, wherever the window lies on
/// the circle.
pub proof fn lemma_window_excludes_end(start: u32, size: u32)
    ensures
        !spec_in_window(advance(start, size as int), start, size),
{
}

/// A window holds exactly the numbers reached by fewer than `size` steps
/// from its left edge.
pub proof fn lemma_window_members(start: u32, size: u32, n: u32)
    ensures
        spec_in_window(advance(start, n as int), start, size) <==> n < size,
{
}

} // verus!
