//! Compute-dispatch sizing: a kernel runs in fixed-size work-groups, and the
//! dispatch grid must hold enough groups to cover every pixel of the image.

use vstd::prelude::*;
use vstd::arithmetic::div_mod::lemma_basic_div;
use vstd::arithmetic::div_mod::lemma_fundamental_div_mod;
use vstd::arithmetic::div_mod::lemma_mod_division_less_than_divisor;

verus! {

/// Least number of work-groups of size `local` that cover `extent` pixels
/// along one axis (ceiling division).
pub open spec fn ceil_div(extent: int, local: int) -> int
    recommends
        extent >= 0,
        local > 0,
{
    (extent + local - 1) / local
}

/// The grid given by `ceil_div` covers the whole extent, and no smaller grid
/// does: one group fewer along the axis leaves pixels uncovered. Invocations
/// past the extent are the kernel's duty to ignore; this lemma bounds how many
/// there can be.
pub proof fn lemma_ceil_div_covers(extent: int, local: int)
    requires
        extent >= 0,
        local > 0,
    ensures
        ceil_div(extent, local) * local >= extent,
        extent > 0 ==> (ceil_div(extent, local) - 1) * local < extent,
        extent == 0 ==> ceil_div(extent, local) == 0,
{
    let a = extent + local - 1;
    let q = a / local;
    lemma_fundamental_div_mod(a, local);
    lemma_mod_division_less_than_divisor(a, local);
    assert(local * q == a - a % local);
    assert(q * local == local * q) by (nonlinear_arith);
    assert((q - 1) * local == q * local - local) by (nonlinear_arith);
    if extent == 0 {
        lemma_basic_div(a, local);
    }
}

/// Dispatch grid for one compute pass: enough `local_x` x `local_y`
/// work-groups to cover a `width` x `height` image, one layer deep. The
/// extent is always computed from the image dimensions handed in, never
/// from a constant.
pub fn dispatch_grid(width: u32, height: u32, local_x: u32, local_y: u32) -> (grid: (
    u32,
    u32,
    u32,
))
    requires
        local_x > 0,
        local_y > 0,
    ensures
        grid.0 == ceil_div(width as int, local_x as int),
        grid.1 == ceil_div(height as int, local_y as int),
        grid.2 == 1,
        grid.0 * local_x >= width,
        grid.1 * local_y >= height,
{
    let gx: u32 = grid_axis(width, local_x);
    let gy: u32 = grid_axis(height, local_y);
    (gx, gy, 1)
}

/// Work-group count along one axis: `extent / local`, rounded up.
fn grid_axis(extent: u32, local: u32) -> (groups: u32)
    requires
        local > 0,
    ensures
        groups == ceil_div(extent as int, local as int),
        groups * local >= extent,
{
    let ghost e: int = extent as int;
    let ghost l: int = local as int;
    let ghost c: int = ceil_div(e, l);
    proof {
        lemma_ceil_div_covers(e, l);
        lemma_fundamental_div_mod(e, l);
        lemma_mod_division_less_than_divisor(e, l);
    }
    if extent % local == 0 {
        proof {
            let d = e / l;
            if extent == 0 {
                lemma_basic_div(e, l);
            } else {
                assert(c == d) by (nonlinear_arith)
                    requires
                        l > 0,
                        c * l >= e,
                        (c - 1) * l < e,
                        e == l * d + e % l,
                        e % l == 0,
                ;
            }
        }
        extent / local
    } else {
        // `extent % local != 0` forces `local >= 2`, so the quotient is at
        // most half of `u32::MAX` and adding one cannot overflow.
        proof {
            let d = e / l;
            assert(d + 1 <= u32::MAX) by (nonlinear_arith)
                requires
                    l >= 2,
                    e <= u32::MAX,
                    e == l * d + e % l,
                    0 <= e % l < l,
            ;
            assert(c == d + 1) by (nonlinear_arith)
                requires
                    l > 0,
                    c * l >= e,
                    (c - 1) * l < e,
                    e == l * d + e % l,
                    0 < e % l < l,
            ;
        }
        extent / local + 1
    }
}

} // verus!
