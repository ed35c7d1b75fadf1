//! Rejection sampling: which draws from the enclosing cube or square are
//! kept.

use vstd::prelude::*;
use crate::scalar::{Scalar, ONE_BITS};

verus! {

/// Whether a draw from the cube is kept as a point of the unit ball, by
/// its squared length: it is redrawn as long as that exceeds one.
pub fn ball_accepts(squared_length: Scalar) -> (r: bool)
    ensures
        r == !(Scalar { bits: ONE_BITS }).lt_spec(squared_length),
{
    !squared_length.gt(Scalar::one())
}

/// Whether a draw from the square is kept as a point of the unit disk, by
/// its squared length: it is redrawn as long as that reaches one.
pub fn disk_accepts(squared_length: Scalar) -> (r: bool)
    ensures
        r == !(Scalar { bits: ONE_BITS }).le_spec(squared_length),
{
    !squared_length.ge(Scalar::one())
}

} // verus!
