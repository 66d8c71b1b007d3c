use vstd::prelude::*;

pub mod accel;
pub mod activity;
pub mod caps;
pub mod cmdline;
pub mod eps;
pub mod errors;
pub mod exregs;
pub mod kobjs;
pub mod loader;
pub mod muxctl;
pub mod selrange;
pub mod sig;
pub mod slab;
pub mod sysc;
pub mod tcu;
pub mod tilemng;
pub mod tiles;

verus! {

} // verus!
