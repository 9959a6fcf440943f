//! The integer decisions around moving the cursor: whether to jump or run,
//! whether the user took the mouse over, and whether the system refused to
//! move the cursor. The running path itself is drawn by the caller.
use vstd::prelude::*;
use crate::dialog::Point;

verus! {

/// Points closer than this (in pixels, on both axes) count as the same spot.
pub const NEAR: i64 = 2;
/// Ticks further apart than this (milliseconds) mean the message loop stalled.
pub const TICK_STALL_LIMIT_MS: u64 = 50;
/// After this many ticks in a row without progress the run is given up.
pub const MAX_STALLED_TICKS: u8 = 3;

/// The absolute difference of two coordinates.
pub open spec fn dist(a: i32, b: i32) -> int {
    if a >= b { a - b } else { b - a }
}

fn abs_diff(a: i32, b: i32) -> (d: i64)
    ensures
        d == dist(a, b),
{
    let x = a as i64 - b as i64;
    if x >= 0 { x } else { -x }
}

/// `a` and `b` are within [`NEAR`] pixels on both axes.
pub open spec fn near(a: Point, b: Point) -> bool {
    dist(a.x, b.x) <= NEAR && dist(a.y, b.y) <= NEAR
}

/// Whether `a` and `b` are the same spot, give or take [`NEAR`] pixels.
pub fn is_near(a: Point, b: Point) -> (r: bool)
    ensures
        r == near(a, b),
{
    abs_diff(a.x, b.x) <= NEAR && abs_diff(a.y, b.y) <= NEAR
}

/// The cursor jumps instead of running when running is off, takes no time, or
/// the way is shorter than 8 pixels.
pub open spec fn jumps(animate: bool, duration_ms: u32, from: Point, to: Point) -> bool {
    let dx = to.x - from.x;
    let dy = to.y - from.y;
    !animate || duration_ms == 0 || dx * dx + dy * dy < 64
}

/// Whether the cursor jumps to `to` (see [`jumps`]).
pub fn moves_instantly(animate: bool, duration_ms: u32, from: Point, to: Point) -> (b: bool)
    ensures
        b == jumps(animate, duration_ms, from, to),
{
    if !animate || duration_ms == 0 {
        return true;
    }
    let dx = to.x as i64 - from.x as i64;
    let dy = to.y as i64 - from.y as i64;
    assert(dx * dx <= 0x1_0000_0000 * 0x1_0000_0000) by (nonlinear_arith)
        requires -0x1_0000_0000 <= dx <= 0x1_0000_0000;
    assert(dy * dy <= 0x1_0000_0000 * 0x1_0000_0000) by (nonlinear_arith)
        requires -0x1_0000_0000 <= dy <= 0x1_0000_0000;
    assert(0 <= dx * dx) by (nonlinear_arith);
    assert(0 <= dy * dy) by (nonlinear_arith);
    let d2 = dx as i128 * dx as i128 + dy as i128 * dy as i128;
    d2 < 64
}

/// A jump was refused: the cursor was to move more than [`NEAR`] pixels, but
/// after the jump it is still where it started.
pub open spec fn jump_refused(from: Point, to: Point, after: Point) -> bool {
    !near(to, from) && near(after, from)
}

/// Whether a jump from `from` to `to` was refused, the cursor being at `after`.
pub fn move_rejected(from: Point, to: Point, after: Point) -> (b: bool)
    ensures
        b == jump_refused(from, to, after),
{
    !is_near(to, from) && is_near(after, from)
}

/// The user took the mouse over during a run: the cursor has left its
/// starting spot, and is further than `threshold` from where it was last put,
/// beyond the distance of the last step (the cursor may lag one tick behind).
pub open spec fn taken_over(now: Point, last_set: Point, prev_set: Point, from: Point, threshold: u32) -> bool {
    !near(now, from) && (dist(now.x, last_set.x) > threshold + dist(last_set.x, prev_set.x)
        || dist(now.y, last_set.y) > threshold + dist(last_set.y, prev_set.y))
}

/// Whether the user moved the mouse during a run (see [`taken_over`]).
pub fn user_moved(now: Point, last_set: Point, prev_set: Point, from: Point, threshold: u32) -> (b: bool)
    ensures
        b == taken_over(now, last_set, prev_set, from, threshold),
{
    let t = threshold as i64;
    !is_near(now, from) && (abs_diff(now.x, last_set.x) > t + abs_diff(last_set.x, prev_set.x)
        || abs_diff(now.y, last_set.y) > t + abs_diff(last_set.y, prev_set.y))
}

/// A tick made no progress: the position could be measured, the cursor was
/// to move more than [`NEAR`] pixels from where it was last put, and it is
/// still there.
pub open spec fn stuck(measured: bool, wanted: Point, last_set: Point, actual: Point) -> bool {
    measured && !near(wanted, last_set) && near(actual, last_set)
}

/// Whether a tick made no progress (see [`stuck`]).
pub fn tick_stuck(measured: bool, wanted: Point, last_set: Point, actual: Point) -> (b: bool)
    ensures
        b == stuck(measured, wanted, last_set, actual),
{
    measured && !is_near(wanted, last_set) && is_near(actual, last_set)
}

/// The number of ticks in a row without progress after this one.
pub fn next_stall_count(count: u8, stuck_now: bool) -> (n: u8)
    ensures
        n == (if !stuck_now { 0 } else if count == u8::MAX { u8::MAX as int } else { count + 1 }),
{
    if stuck_now { count.saturating_add(1) } else { 0 }
}

/// Whether the run is given up after `count` ticks in a row without progress.
pub fn gives_up(count: u8) -> (b: bool)
    ensures
        b == (count >= MAX_STALLED_TICKS),
{
    count >= MAX_STALLED_TICKS
}

/// Whether the tick came so late after the last one that the loop stalled;
/// then no take-over by the user is judged on this tick.
pub fn tick_stalled(now: u64, last_tick: u64) -> (b: bool)
    ensures
        b == (now >= last_tick && now - last_tick > TICK_STALL_LIMIT_MS),
{
    now >= last_tick && now - last_tick > TICK_STALL_LIMIT_MS
}

/// The cursor has really left its starting spot: it could be measured and is
/// more than [`NEAR`] pixels away. Only then is the arrival sound played.
pub fn left_start(measured: bool, actual: Point, from: Point) -> (b: bool)
    ensures
        b == (measured && !near(actual, from)),
{
    measured && !is_near(actual, from)
}

} // verus!
