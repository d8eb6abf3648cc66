//! A one-shot enumerator over the points of a box, handing them out in
//! row-major order with axis 0 varying fastest.

use vstd::prelude::*;

use crate::universal_point::UniversalLatticePoint;
use crate::universal_point::UniversalLatticeSize;
use crate::utils::point_at;
use crate::utils::product_of;
use crate::utils::size_product;

verus! {

/// Enumerates every point of `[0, size)` exactly once, in row-major
/// order.
#[derive(Debug)]
pub struct UniversalPointGenerator<const D: usize> {
    remaining: usize,
    size: UniversalLatticeSize<D>,
    index: usize,
}

impl<const D: usize> UniversalPointGenerator<D> {
    /// Points not yet handed out never outnumber the box's cells.
    #[verifier::type_invariant]
    spec fn wf(self) -> bool {
        self.remaining <= self.index && self.index == product_of(self.size@)
    }

    /// The box being enumerated.
    pub closed spec fn size_view(self) -> Seq<usize> {
        self.size@
    }

    /// How many points are still to come.
    pub closed spec fn pending(self) -> nat {
        self.remaining as nat
    }

    /// A generator over every point of `[0, until)`.
    pub fn new(until: UniversalLatticeSize<D>) -> (g: Self)
        requires
            product_of(until@) <= usize::MAX,
        ensures
            g.size_view() == until@,
            g.pending() == product_of(until@),
    {
        let index = size_product(&until);
        UniversalPointGenerator { remaining: index, size: until, index }
    }

    /// The next point in row-major order, or `None` once every point of
    /// the box has been handed out.
    pub fn next(&mut self) -> (r: Option<UniversalLatticePoint<D>>)
        ensures
            final(self).size_view() == old(self).size_view(),
            old(self).pending() == 0 ==> r is None && final(self).pending() == 0,
            old(self).pending() > 0 ==> (r matches Some(p) && p@ == point_at(
                product_of(old(self).size_view()) - old(self).pending(),
                old(self).size_view(),
            ) && final(self).pending() == old(self).pending() - 1),
    {
        proof {
            use_type_invariant(&*self);
        }
        if self.remaining == 0 {
            None
        } else {
            let index = self.index - self.remaining;
            self.remaining = self.remaining - 1;
            Some(crate::utils::point_from_flat_index(index, self.size))
        }
    }
}

} // verus!
