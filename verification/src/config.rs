use vstd::prelude::*;

verus! {

/// Number of rows (and columns) of each face of the cube.
pub const SIZE: usize = 4;

} // verus!
