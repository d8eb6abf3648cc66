//! The dimension-generic coordinate tuple used to address lattice cells,
//! together with the two aliases the lattices are built on: signed points
//! and unsigned sizes.

use vstd::prelude::*;

use crate::utils::in_box;

verus! {

/// An immutable `D`-dimensional tuple of coordinates. Lattice cells are
/// addressed by `UniversalPoint<i128, D>` and lattice extents described by
/// `UniversalPoint<usize, D>`.
#[derive(Debug, Clone, Copy, PartialEq, Eq)]
pub struct UniversalPoint<C, const D: usize>([C; D]);

/// A `D`-dimensional signed cell address.
pub type UniversalLatticePoint<const D: usize> = UniversalPoint<i128, D>;

/// A `D`-dimensional bounding box: one non-negative extent per axis.
pub type UniversalLatticeSize<const D: usize> = UniversalPoint<usize, D>;

impl<C, const D: usize> View for UniversalPoint<C, D> {
    type V = Seq<C>;

    closed spec fn view(&self) -> Seq<C> {
        self.0@
    }
}

/// The coordinate array holding the first `k` entries of `s` (and zeroes
/// beyond), the building block for describing a point by its coordinates
/// alone.
pub closed spec fn coords_array<const D: usize>(s: Seq<i128>, k: int) -> [i128; D]
    decreases k,
{
    if k <= 0 {
        vstd::array::spec_array_fill_for_copy_type::<i128, D>(0)
    } else {
        vstd::array::spec_array_update(coords_array::<D>(s, k - 1), k - 1, s[k - 1])
    }
}

/// The point with exactly the coordinates `s`; meaningful when `s` has one
/// coordinate per dimension.
pub closed spec fn point_of_coords<const D: usize>(s: Seq<i128>) -> UniversalPoint<i128, D> {
    UniversalPoint(coords_array::<D>(s, D as int))
}

proof fn lemma_coords_array_prefix<const D: usize>(s: Seq<i128>, k: int)
    requires
        0 <= k <= D,
    ensures
        forall|j: int| 0 <= j < k ==> #[trigger] coords_array::<D>(s, k)@[j] == s[j],
        forall|j: int| k <= j < D ==> #[trigger] coords_array::<D>(s, k)@[j] == 0,
    decreases k,
{
    if k > 0 {
        lemma_coords_array_prefix::<D>(s, k - 1);
        let prev = coords_array::<D>(s, k - 1);
        let cur = coords_array::<D>(s, k);
        assert(cur@ == prev@.update(k - 1, s[k - 1]));
    }
}

/// `point_of_coords` reproduces exactly the coordinates it is given.
pub proof fn lemma_point_of_coords<const D: usize>(s: Seq<i128>)
    requires
        s.len() == D,
    ensures
        point_of_coords::<D>(s)@ == s,
{
    lemma_coords_array_prefix::<D>(s, D as int);
    assert(point_of_coords::<D>(s)@ =~= s);
}

/// Two points with the same coordinates are the same point.
pub proof fn lemma_point_view_injective<C, const D: usize>(
    p: UniversalPoint<C, D>,
    q: UniversalPoint<C, D>,
)
    requires
        p@ == q@,
    ensures
        p == q,
{
    assert(forall|i: int| 0 <= i < D ==> p.0[i] == p.0@[i] && q.0[i] == q.0@[i]);
    assert(p.0 =~= q.0);
}

/// A point's view always holds exactly one coordinate per dimension.
pub broadcast proof fn lemma_universal_point_len<C, const D: usize>(p: UniversalPoint<C, D>)
    ensures
        (#[trigger] p@).len() == D,
{
    assert(p.0@.len() == D);
}

impl<C, const D: usize> UniversalPoint<C, D> {
    /// Wraps an exact-length tuple of coordinates.
    pub fn new(values: [C; D]) -> (p: Self)
        ensures
            p@ == values@,
    {
        UniversalPoint(values)
    }

    /// The coordinate on axis `index`, or `None` past the dimension.
    pub fn get(&self, index: usize) -> (r: Option<&C>)
        ensures
            index < D ==> (r matches Some(c) && *c == self@[index as int]),
            index >= D ==> r is None,
    {
        if index < D {
            Some(vstd::array::array_index_get(&self.0, index))
        } else {
            None
        }
    }
}

impl<C: Copy, const D: usize> UniversalPoint<C, D> {
    /// The full coordinate tuple.
    pub fn values(&self) -> (r: [C; D])
        ensures
            r@ == self@,
    {
        self.0
    }
}

impl<const D: usize> UniversalPoint<i128, D> {
    /// The full coordinate tuple of a signed point.
    pub fn coords(&self) -> (r: [i128; D])
        ensures
            r@ == self@,
    {
        self.0
    }
}

impl<const D: usize> UniversalPoint<usize, D> {
    /// The extent of every axis.
    pub fn sizes(&self) -> (r: [usize; D])
        ensures
            r@ == self@,
    {
        self.0
    }

    /// Whether `point` lies inside the box `[0, self)` on every axis.
    pub fn contains(&self, point: &UniversalLatticePoint<D>) -> (r: bool)
        ensures
            r == in_box(point@, self@),
    {
        let mut i: usize = 0;
        while i < D
            invariant
                i <= D,
                forall|j: int| 0 <= j < i ==> 0 <= #[trigger] point@[j] < self@[j],
            decreases D - i,
        {
            let c = *vstd::array::array_index_get(&point.0, i);
            let n = *vstd::array::array_index_get(&self.0, i);
            if c < 0 || c >= n as i128 {
                return false;
            }
            i += 1;
        }
        true
    }

    /// The same extents as signed coordinates, for comparison against a
    /// point's axes.
    pub fn convert(&self) -> (r: UniversalPoint<i128, D>)
        ensures
            r@.len() == D,
            forall|i: int| 0 <= i < D ==> #[trigger] r@[i] == self@[i] as i128,
    {
        let mut out: [i128; D] = [0; D];
        let mut i: usize = 0;
        while i < D
            invariant
                i <= D,
                out@.len() == D,
                forall|j: int| 0 <= j < i ==> #[trigger] out@[j] == self@[j] as i128,
            decreases D - i,
        {
            out[i] = *vstd::array::array_index_get(&self.0, i) as i128;
            i += 1;
        }
        UniversalPoint(out)
    }
}

} // verus!
