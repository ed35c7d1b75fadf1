//! Populating the scene of many small spheres: where they stand and what
//! they are made of.

use vstd::prelude::*;
use crate::scalar::Scalar;

verus! {

/// The grid of small spheres runs from `-GRID_REACH` up to, but without,
/// `GRID_REACH` along both axes.
pub const GRID_REACH: i32 = 10;

/// Bit pattern of one half.
pub const HALF_BITS: u32 = 0x3f00_0000;

/// Bit pattern of nine tenths, rounded to nearest.
pub const NINE_TENTHS_BITS: u32 = 0x3f66_6666;

/// The kinds of material.
#[derive(Clone, Copy, Debug, PartialEq, Eq, Structural)]
pub enum MaterialKind {
    /// Diffuse.
    Lambertian,
    /// Specular, with a roughness.
    Metal,
    /// Transparent.
    Dielectric,
}

/// The cell of the grid at place `k`, row by row.
pub open spec fn cell_at(k: int) -> (int, int) {
    (k / (2 * GRID_REACH) - GRID_REACH, k % (2 * GRID_REACH) - GRID_REACH)
}

/// The material of a small sphere, by a uniform sample: diffuse below one
/// half, metal from there to below nine tenths, glass otherwise.
pub fn pick_material(sample: Scalar) -> (kind: MaterialKind)
    ensures
        kind == if sample.lt_spec(Scalar { bits: HALF_BITS }) {
            MaterialKind::Lambertian
        } else if sample.lt_spec(Scalar { bits: NINE_TENTHS_BITS }) {
            MaterialKind::Metal
        } else {
            MaterialKind::Dielectric
        },
{
    if sample.lt(Scalar::from_bits(HALF_BITS)) {
        MaterialKind::Lambertian
    } else if sample.lt(Scalar::from_bits(NINE_TENTHS_BITS)) {
        MaterialKind::Metal
    } else {
        MaterialKind::Dielectric
    }
}

/// Whether a small sphere is placed, by the distance of its centre from
/// the spot kept for a large sphere: only beyond nine tenths.
pub fn keeps_clear(distance: Scalar) -> (r: bool)
    ensures
        r == (Scalar { bits: NINE_TENTHS_BITS }).lt_spec(distance),
{
    distance.gt(Scalar::from_bits(NINE_TENTHS_BITS))
}

/// The cells of the grid, row by row: each pair of whole numbers from
/// `-GRID_REACH` up to, but without, `GRID_REACH`.
pub fn grid_cells() -> (cells: Vec<(i32, i32)>)
    ensures
        cells@.len() == 4 * GRID_REACH * GRID_REACH,
        forall|k: int|
            0 <= k < cells@.len() ==> (#[trigger] cells@[k].0 as int, cells@[k].1 as int)
                == cell_at(k),
{
    let mut cells: Vec<(i32, i32)> = Vec::new();
    let mut a: i32 = -GRID_REACH;
    while a < GRID_REACH
        invariant
            -GRID_REACH <= a <= GRID_REACH,
            cells@.len() == (a + GRID_REACH) * 2 * GRID_REACH,
            forall|k: int|
                0 <= k < cells@.len() ==> (#[trigger] cells@[k].0 as int, cells@[k].1 as int)
                    == cell_at(k),
        decreases GRID_REACH - a,
    {
        let mut b: i32 = -GRID_REACH;
        while b < GRID_REACH
            invariant
                -GRID_REACH <= a < GRID_REACH,
                -GRID_REACH <= b <= GRID_REACH,
                cells@.len() == (a + GRID_REACH) * 2 * GRID_REACH + (b + GRID_REACH),
                forall|k: int|
                    0 <= k < cells@.len() ==> (#[trigger] cells@[k].0 as int, cells@[k].1 as int)
                        == cell_at(k),
            decreases GRID_REACH - b,
        {
            proof {
                let k = cells@.len() as int;
                assert(GRID_REACH == 10);
                assert(k == (a + 10) * 20 + (b + 10));
                assert(k / 20 == a + 10 && k % 20 == b + 10);
                assert(cell_at(k) == (a as int, b as int));
            }
            cells.push((a, b));
            b = b + 1;
        }
        a = a + 1;
    }
    cells
}

} // verus!
