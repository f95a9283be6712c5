use vstd::prelude::*;

pub mod config;
pub mod side;
pub mod cube;
pub mod indent;
pub mod text;
pub mod tree;

verus! {

} // verus!
