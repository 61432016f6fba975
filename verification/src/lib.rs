use vstd::prelude::*;

pub mod detail;
pub mod grid;
pub mod random;
pub mod spells;
pub mod buffers;
pub mod creatures;
pub mod minimap;
pub mod world;
pub mod mesh;
pub mod keep;

verus! {

} // verus!
