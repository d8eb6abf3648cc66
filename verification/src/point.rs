//! The bare coordinate tuple: an exact-length, immutable `D`-dimensional
//! value usable as a key wherever structural equality and ordering are
//! wanted.

use vstd::prelude::*;

verus! {

/// An immutable tuple of `D` coordinates of type `C`.
#[derive(Debug, Clone, Copy, PartialEq, Eq, PartialOrd, Ord, Hash)]
pub struct Point<const D: usize, C>([C; D]);

impl<const D: usize, C> View for Point<D, C> {
    type V = Seq<C>;

    closed spec fn view(&self) -> Seq<C> {
        self.0@
    }
}

impl<const D: usize, C> Point<D, C> {
    /// Wraps an exact-length tuple of coordinates.
    pub fn new(coords: [C; D]) -> (p: Self)
        ensures
            p@ == coords@,
    {
        Point(coords)
    }

    /// The coordinate on axis `index`, or `None` past the dimension.
    pub fn get(&self, index: usize) -> (r: Option<&C>)
        ensures
            index < D ==> (r matches Some(c) && *c == self@[index as int]),
            index >= D ==> r is None,
    {
        if index < D {
            Some(vstd::array::array_index_get(&self.0, index))
        } else {
            None
        }
    }
}

impl<const D: usize, C: Copy> Point<D, C> {
    /// The full coordinate tuple.
    pub fn coords(&self) -> (r: [C; D])
        ensures
            r@ == self@,
    {
        self.0
    }

    /// The point holding `value` on every axis.
    pub fn fill(value: C) -> (p: Self)
        ensures
            p@.len() == D,
            forall|i: int| 0 <= i < D ==> #[trigger] p@[i] == value,
    {
        Point([value;D])
    }
}

impl<C: Copy> Point<0, C> {
    /// A one-dimensional point.
    pub fn point_1d(x: C) -> (p: Point<1, C>)
        ensures
            p@ =~= seq![x],
    {
        Point([x])
    }

    /// A two-dimensional point.
    pub fn point_2d(x: C, y: C) -> (p: Point<2, C>)
        ensures
            p@ =~= seq![x, y],
    {
        Point([x, y])
    }

    /// A three-dimensional point.
    pub fn point_3d(x: C, y: C, z: C) -> (p: Point<3, C>)
        ensures
            p@ =~= seq![x, y, z],
    {
        Point([x, y, z])
    }
}

impl<C: Copy> Point<1, C> {
    /// The only coordinate.
    pub fn x(&self) -> (r: C)
        ensures
            r == self@[0],
    {
        *vstd::array::array_index_get(&self.0, 0)
    }
}

impl<C: Copy> Point<2, C> {
    /// The coordinate on axis 0.
    pub fn x(&self) -> (r: C)
        ensures
            r == self@[0],
    {
        *vstd::array::array_index_get(&self.0, 0)
    }

    /// The coordinate on axis 1.
    pub fn y(&self) -> (r: C)
        ensures
            r == self@[1],
    {
        *vstd::array::array_index_get(&self.0, 1)
    }
}

impl<C: Copy> Point<3, C> {
    /// The coordinate on axis 0.
    pub fn x(&self) -> (r: C)
        ensures
            r == self@[0],
    {
        *vstd::array::array_index_get(&self.0, 0)
    }

    /// The coordinate on axis 1.
    pub fn y(&self) -> (r: C)
        ensures
            r == self@[1],
    {
        *vstd::array::array_index_get(&self.0, 1)
    }

    /// The coordinate on axis 2.
    pub fn z(&self) -> (r: C)
        ensures
            r == self@[2],
    {
        *vstd::array::array_index_get(&self.0, 2)
    }
}

} // verus!
