//! Dock geometry and shadow falloff: integer arithmetic only.

use vstd::prelude::*;

verus! {

/// Width in pixels of the shadow ramp along the dock's top and side edges.
pub const SHADOW_W_PX: i32 = 24;

/// Sine of the angle at which the dock's sides lean inwards (30 degrees), in
/// thousandths.
pub const DOCK_SINE_PER_MILLE: u32 = 500;

/// Alpha of a shadow pixel `distance` pixels away from the edge: a linear ramp
/// from 0 at the edge to 255 at `SHADOW_W_PX`, flat outside that range.
pub open spec fn falloff(distance: int) -> int {
    if distance <= 0 {
        0
    } else if distance >= SHADOW_W_PX as int {
        255
    } else {
        distance * 255 / (SHADOW_W_PX as int)
    }
}

/// The ramp never leaves the range of an alpha byte and never decreases.
pub proof fn lemma_falloff_bounds(near: int, far: int)
    requires
        near <= far,
    ensures
        0 <= falloff(near) <= falloff(far) <= 255,
{
}

/// Shadow alpha for a pixel `dist_to_edge` pixels inside the edge.
pub fn shadow_falloff_i(dist_to_edge: i32) -> (alpha: u8)
    ensures
        alpha as int == falloff(dist_to_edge as int),
{
    if dist_to_edge <= 0 {
        0
    } else if dist_to_edge >= SHADOW_W_PX {
        255
    } else {
        let scaled: i32 = dist_to_edge * 255 / SHADOW_W_PX;
        scaled as u8
    }
}

/// How far the dock's edge is pulled in from each side at `row`, for a panel
/// `height` rows tall whose sides lean at an angle with the given sine (in
/// thousandths): the sine times the number of rows from `row` down to the
/// bottom, rounded down. The dock is therefore narrowest in row 0 and reaches
/// its full width below the last row. Rows outside the panel have no inset.
pub open spec fn inset_at(row: int, height: int, sine_per_mille: int) -> int {
    if 0 <= row < height {
        sine_per_mille * (height - row) / 1000
    } else {
        0
    }
}

/// The inset is never negative and never more than the rows from `row` down
/// to the bottom, and from one row of the panel to the next it does not grow.
pub proof fn lemma_inset_shrinks(row: int, height: int, sine_per_mille: int)
    requires
        0 <= sine_per_mille <= 1000,
    ensures
        0 <= inset_at(row, height, sine_per_mille),
        0 <= row < height ==> inset_at(row, height, sine_per_mille) <= height - row,
        0 <= row ==> inset_at(row + 1, height, sine_per_mille) <= inset_at(
            row,
            height,
            sine_per_mille,
        ),
{
    if 0 <= row < height {
        let rest = height - row;
        assert(0 <= sine_per_mille * (rest - 1) <= sine_per_mille * rest <= 1000 * rest)
            by (nonlinear_arith)
            requires
                0 <= sine_per_mille <= 1000,
                0 < rest,
        ;
    }
}

/// Inset of the dock's edge at `row` of a panel `height` rows tall.
pub fn dock_x_inset(row: u32, height: u32, sine_per_mille: u32) -> (inset: u32)
    requires
        sine_per_mille <= 1000,
    ensures
        inset as int == inset_at(row as int, height as int, sine_per_mille as int),
{
    if row < height {
        let rest: u64 = (height - row) as u64;
        proof {
            lemma_inset_shrinks(row as int, height as int, sine_per_mille as int);
            assert(0 <= sine_per_mille as int * rest as int <= 1000 * rest as int)
                by (nonlinear_arith)
                requires
                    0 <= sine_per_mille as int <= 1000,
                    0 < rest as int,
            ;
        }
        let scaled: u64 = sine_per_mille as u64 * rest;
        (scaled / 1000) as u32
    } else {
        0
    }
}

/// `root` is the square root of `n`, rounded down.
pub open spec fn is_floor_sqrt(n: int, root: int) -> bool {
    0 <= root && root * root <= n < (root + 1) * (root + 1)
}

/// The square root of `n`, rounded down.
pub open spec fn floor_sqrt(n: int) -> int {
    choose|root: int| is_floor_sqrt(n, root)
}

/// At most one number is the rounded-down square root of `n`.
pub proof fn lemma_floor_sqrt_unique(n: int, first: int, second: int)
    requires
        is_floor_sqrt(n, first),
        is_floor_sqrt(n, second),
    ensures
        first == second,
{
    if first < second {
        assert((first + 1) * (first + 1) <= second * second) by (nonlinear_arith)
            requires
                0 <= first,
                first + 1 <= second,
        ;
    } else if second < first {
        assert((second + 1) * (second + 1) <= first * first) by (nonlinear_arith)
            requires
                0 <= second,
                second + 1 <= first,
        ;
    }
}

/// Whoever exhibits a rounded-down square root of `n` has found `floor_sqrt(n)`.
pub proof fn lemma_floor_sqrt_is(n: int, root: int)
    requires
        is_floor_sqrt(n, root),
    ensures
        floor_sqrt(n) == root,
{
    lemma_floor_sqrt_unique(n, root, floor_sqrt(n));
}

/// Square root of `n`, rounded down. Counts up from zero: made for the short
/// distances inside a shadow corner.
pub fn isqrt(n: u32) -> (root: u32)
    ensures
        is_floor_sqrt(n as int, root as int),
        root as int == floor_sqrt(n as int),
{
    let target: u64 = n as u64;
    let mut root: u64 = 0;
    let mut next_square: u64 = 1;
    while next_square <= target
        invariant
            target == n as u64,
            root * root <= target,
            next_square == (root + 1) * (root + 1),
            root <= 65535,
        decreases 65536 - root,
    {
        proof {
            let next = root as int + 1;
            if next > 65535 {
                assert(next * next >= 65536 * 65536) by (nonlinear_arith)
                    requires
                        next >= 65536,
                ;
            }
            assert((next + 1) * (next + 1) == next * next + 2 * next + 1) by (nonlinear_arith);
        }
        root = root + 1;
        next_square = next_square + 2 * root + 1;
    }
    proof {
        lemma_floor_sqrt_is(n as int, root as int);
    }
    root as u32
}

} // verus!
