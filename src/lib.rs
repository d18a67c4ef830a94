//! An interactive pixel-art canvas: a square grid of colored cells, painted
//! with a square or circular brush, and compacted into vertical runs for
//! drawing.
use vstd::prelude::*;

pub mod brush;
pub mod color;
pub mod geometry;
pub mod grid;
pub mod render;
pub mod session;

verus! {

/// The largest side length a canvas may have.
pub const MAX_GRID_SIZE: usize = 64;

} // verus!
