//! A three-dimensional bounding box described by named extents.

use vstd::prelude::*;

verus! {

/// The extents of a three-dimensional lattice.
#[derive(Debug, Clone, Copy, PartialEq, Eq, Structural)]
pub struct Lattice3Size {
    pub width: usize,
    pub height: usize,
    pub depth: usize,
}

impl Lattice3Size {
    /// A box of the given extents.
    pub fn new(width: usize, height: usize, depth: usize) -> (r: Self)
        ensures
            r.width == width,
            r.height == height,
            r.depth == depth,
    {
        Lattice3Size { width, height, depth }
    }

    /// The extent of axis 0.
    pub fn width(&self) -> (r: usize)
        ensures
            r == self.width,
    {
        self.width
    }

    /// The extent of axis 1.
    pub fn height(&self) -> (r: usize)
        ensures
            r == self.height,
    {
        self.height
    }

    /// The extent of axis 2.
    pub fn depth(&self) -> (r: usize)
        ensures
            r == self.depth,
    {
        self.depth
    }
}

} // verus!
