//! The order in which the pixels of an image are visited and written.

use vstd::prelude::*;
use vstd::arithmetic::div_mod::{
    lemma_fundamental_div_mod,
    lemma_fundamental_div_mod_converse_div,
    lemma_fundamental_div_mod_converse_mod,
};

verus! {

/// The pixel visited at place `k` of an image `nx` wide and `ny` high, as
/// column and row: rows from the highest down to row 0, each from left to
/// right.
pub open spec fn pixel_at(nx: int, ny: int, k: int) -> (int, int) {
    (k % nx, ny - 1 - k / nx)
}

/// The place at which the pixel in column `i` of row `j` is visited.
pub open spec fn place_of(nx: int, ny: int, i: int, j: int) -> int {
    (ny - 1 - j) * nx + i
}

/// Every pixel of the image is visited at its place, and every place
/// within the image holds a pixel of the image: the scan order is a
/// one-to-one walk through the grid.
pub proof fn lemma_scan_order_is_a_bijection(nx: int, ny: int)
    requires
        0 < nx,
        0 <= ny,
    ensures
        forall|i: int, j: int|
            0 <= i < nx && 0 <= j < ny ==> 0 <= #[trigger] place_of(nx, ny, i, j) < nx * ny
                && pixel_at(nx, ny, place_of(nx, ny, i, j)) == (i, j),
        forall|k: int|
            0 <= k < nx * ny ==> {
                let (i, j) = #[trigger] pixel_at(nx, ny, k);
                0 <= i < nx && 0 <= j < ny && place_of(nx, ny, i, j) == k
            },
{
    assert forall|i: int, j: int| 0 <= i < nx && 0 <= j < ny implies 0 <= #[trigger] place_of(
        nx,
        ny,
        i,
        j,
    ) < nx * ny && pixel_at(nx, ny, place_of(nx, ny, i, j)) == (i, j) by {
        let row = ny - 1 - j;
        lemma_fundamental_div_mod_converse_div(row * nx + i, nx, row, i);
        lemma_fundamental_div_mod_converse_mod(row * nx + i, nx, row, i);
        assert(0 <= row * nx + i < nx * ny) by (nonlinear_arith)
            requires
                0 <= row < ny,
                0 <= i < nx,
        ;
    }
    assert forall|k: int| 0 <= k < nx * ny implies {
        let (i, j) = #[trigger] pixel_at(nx, ny, k);
        0 <= i < nx && 0 <= j < ny && place_of(nx, ny, i, j) == k
    } by {
        lemma_fundamental_div_mod(k, nx);
        assert(0 <= k / nx < ny && 0 <= k % nx < nx && (k / nx) * nx == nx * (k / nx))
            by (nonlinear_arith)
            requires
                0 <= k < nx * ny,
                0 < nx,
        ;
    }
}

/// The pixels of an image `nx` wide and `ny` high in the order in which
/// they are written: the top row first, each row from left to right.
pub fn scan_order(nx: u32, ny: u32) -> (order: Vec<(u32, u32)>)
    requires
        nx * ny <= usize::MAX,
    ensures
        order@.len() == nx * ny,
        forall|k: int|
            0 <= k < order@.len() ==> (#[trigger] order@[k].0 as int, order@[k].1 as int)
                == pixel_at(nx as int, ny as int, k),
{
    let mut order: Vec<(u32, u32)> = Vec::new();
    let mut row: u32 = 0;
    while row < ny
        invariant
            row <= ny,
            nx * ny <= usize::MAX,
            order@.len() == row * nx,
            forall|k: int|
                0 <= k < order@.len() ==> (#[trigger] order@[k].0 as int, order@[k].1 as int)
                    == pixel_at(nx as int, ny as int, k),
        decreases ny - row,
    {
        let j: u32 = ny - 1 - row;
        let mut i: u32 = 0;
        while i < nx
            invariant
                i <= nx,
                row < ny,
                j == ny - 1 - row,
                nx * ny <= usize::MAX,
                order@.len() == row * nx + i,
                forall|k: int|
                    0 <= k < order@.len() ==> (#[trigger] order@[k].0 as int, order@[k].1 as int)
                        == pixel_at(nx as int, ny as int, k),
            decreases nx - i,
        {
            proof {
                lemma_fundamental_div_mod_converse_div(row * nx + i, nx as int, row as int, i as int);
                lemma_fundamental_div_mod_converse_mod(row * nx + i, nx as int, row as int, i as int);
                assert(row * nx + i < nx * ny) by (nonlinear_arith)
                    requires
                        0 <= row < ny,
                        0 <= i < nx,
                ;
            }
            order.push((i, j));
            i = i + 1;
        }
        proof {
            assert((row + 1) * nx == row * nx + nx) by (nonlinear_arith);
        }
        row = row + 1;
    }
    proof {
        assert(ny * nx == nx * ny) by (nonlinear_arith);
    }
    order
}

} // verus!
