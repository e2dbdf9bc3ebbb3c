//! The mapping between three-dimensional grid coordinates and positions in
//! the flat backing storage, together with the lemmas that make it a
//! bijection over the cells of a grid.

use vstd::prelude::*;
use vstd::arithmetic::div_mod::lemma_div_denominator;
use vstd::arithmetic::div_mod::lemma_div_pos_is_pos;
use vstd::arithmetic::div_mod::lemma_fundamental_div_mod;
use vstd::arithmetic::div_mod::lemma_fundamental_div_mod_converse_div;
use vstd::arithmetic::div_mod::lemma_fundamental_div_mod_converse_mod;
use vstd::arithmetic::div_mod::lemma_mod_bound;

verus! {

/// Linear storage position of the cell at `(x, y, z)` in a grid of width `w`
/// and height `h`: `x` varies fastest, then `y`, then `z`.
pub open spec fn linear_of(x: int, y: int, z: int, w: int, h: int) -> int {
    x + y * w + z * (w * h)
}

/// The `x` coordinate of the cell stored at linear position `i`.
pub open spec fn x_of(i: int, w: int) -> int {
    i % w
}

/// The `y` coordinate of the cell stored at linear position `i`.
pub open spec fn y_of(i: int, w: int, h: int) -> int {
    (i / w) % h
}

/// The `z` coordinate of the cell stored at linear position `i`.
pub open spec fn z_of(i: int, w: int, h: int) -> int {
    i / (w * h)
}

/// In-bounds coordinates land strictly inside the storage, and every partial
/// sum of the position formula stays below `w * h * d`, so the exec
/// computation of a position cannot overflow.
pub proof fn lemma_linear_bounds(x: int, y: int, z: int, w: int, h: int, d: int)
    by (nonlinear_arith)
    requires
        0 <= x < w,
        0 <= y < h,
        0 <= z < d,
    ensures
        0 <= x + y * w,
        0 <= w * h <= w * h * d,
        0 <= z * (w * h) <= w * h * d - w * h,
        0 <= x + y * w + z * (w * h) < w * h * d,
{
}

/// Reading the coordinates back from a linear position undoes the position
/// formula: the storage order determines the coordinates uniquely.
pub proof fn lemma_coords_of_linear(x: int, y: int, z: int, w: int, h: int)
    requires
        0 <= x < w,
        0 <= y < h,
        0 <= z,
    ensures
        x_of(linear_of(x, y, z, w, h), w) == x,
        y_of(linear_of(x, y, z, w, h), w, h) == y,
        z_of(linear_of(x, y, z, w, h), w, h) == z,
{
    let i = x + y * w + z * (w * h);
    assert(i == (z * h + y) * w + x && 0 <= i && 0 <= z * h + y) by (nonlinear_arith)
        requires
            i == x + y * w + z * (w * h),
            0 <= x < w,
            0 <= y < h,
            0 <= z;
    lemma_fundamental_div_mod_converse_mod(i, w, z * h + y, x);
    lemma_fundamental_div_mod_converse_div(i, w, z * h + y, x);
    lemma_fundamental_div_mod_converse_mod(z * h + y, h, z, y);
    lemma_fundamental_div_mod_converse_div(z * h + y, h, z, y);
    lemma_div_denominator(i, w, h);
}

/// Every linear position inside the storage comes from exactly one in-bounds
/// coordinate triple, the one the inverse formula reconstructs.
pub proof fn lemma_linear_of_coords(i: int, w: int, h: int, d: int)
    requires
        0 < w,
        0 < h,
        0 < d,
        0 <= i < w * h * d,
    ensures
        0 <= x_of(i, w) < w,
        0 <= y_of(i, w, h) < h,
        0 <= z_of(i, w, h) < d,
        linear_of(x_of(i, w), y_of(i, w, h), z_of(i, w, h), w, h) == i,
{
    let x = x_of(i, w);
    let y = y_of(i, w, h);
    let z = z_of(i, w, h);
    lemma_fundamental_div_mod(i, w);
    lemma_mod_bound(i, w);
    let j = i / w;
    lemma_div_pos_is_pos(i, w);
    lemma_fundamental_div_mod(j, h);
    lemma_mod_bound(j, h);
    lemma_div_denominator(i, w, h);
    assert(z == j / h);
    lemma_div_pos_is_pos(j, h);
    assert(x + y * w + z * (w * h) == i) by (nonlinear_arith)
        requires
            i == w * j + x,
            j == h * z + y;
    assert(z < d) by (nonlinear_arith)
        requires
            x + y * w + z * (w * h) == i,
            i < w * h * d,
            0 <= x < w,
            0 <= y < h,
            0 <= z,
            0 < w,
            0 < h;
}

} // verus!
