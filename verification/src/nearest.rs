//! The nearest-neighbor strategy of a one-dimensional lattice: the `2r`
//! cells within radius `r` of a cell, in increasing offset order, the
//! center excluded.

use vstd::prelude::*;

use crate::types::BoundaryHandlingLattice;
use crate::types::Lattice;
use crate::types::Neighborhood;
use crate::types::NeighborhoodBuilder;
use crate::universal_lattice::UniversalLattice;
use crate::universal_point::lemma_point_of_coords;
use crate::universal_point::lemma_point_view_injective;
use crate::universal_point::point_of_coords;
use crate::universal_point::UniversalLatticePoint;
use crate::universal_point::UniversalPoint;

verus! {

broadcast use crate::universal_point::lemma_universal_point_len;

/// The `k`-th sampled offset for radius `r`: `-r .. -1` then `1 .. r`.
pub open spec fn nearest_offset(r: int, k: int) -> int {
    if k < r {
        k - r
    } else {
        k - r + 1
    }
}

/// The states of the `2r` cells within radius `r` of `x`, in increasing
/// offset order, each read through the lattice's boundary handling.
pub open spec fn nearest_sampled<S: Copy + Default>(
    r: int,
    p: UniversalLatticePoint<1>,
    lattice: UniversalLattice<1, S>,
) -> Seq<S> {
    Seq::new(
        (2 * r) as nat,
        |k: int| lattice.state_of(point_of_coords::<1>(seq![(p@[0] + nearest_offset(r, k)) as i128])),
    )
}

/// The `2r` neighbor states sampled around one 1D point.
#[derive(Debug, Clone)]
pub struct NearestNeighborhood1<S> {
    states: Vec<S>,
}

impl<S> Neighborhood for NearestNeighborhood1<S> {
    type State = S;

    closed spec fn states_view(self) -> Seq<S> {
        self.states@
    }

    fn iter_states(&self) -> (r: &Vec<S>) {
        &self.states
    }
}

/// Samples the cells within a fixed radius of a 1D cell.
#[derive(Debug, Clone)]
pub struct NearestNeighborhoodBuilder1 {
    radius: usize,
}

impl NearestNeighborhoodBuilder1 {
    /// The builder sampling the `2 * radius` nearest cells.
    pub fn new(radius: usize) -> (b: Self)
        ensures
            b == Self::spec_new(radius),
            b.radius_spec() == radius,
    {
        NearestNeighborhoodBuilder1 { radius }
    }

    /// The builder value `new` returns for a given radius.
    pub closed spec fn spec_new(radius: usize) -> Self {
        NearestNeighborhoodBuilder1 { radius }
    }

    /// The sampling radius.
    pub closed spec fn radius_spec(self) -> usize {
        self.radius
    }
}

/// The builder `spec_new` describes samples at exactly the radius it was
/// given.
pub broadcast proof fn lemma_spec_new_radius(radius: usize)
    ensures
        (#[trigger] NearestNeighborhoodBuilder1::spec_new(radius)).radius_spec() == radius,
{
}

/// The builder samples exactly the cells within its radius, in
/// increasing offset order.
pub proof fn lemma_nearest_sampled_states<S: Copy + Default>(
    builder: NearestNeighborhoodBuilder1,
    point: UniversalLatticePoint<1>,
    lattice: UniversalLattice<1, S>,
)
    ensures
        builder.sampled_states(point, lattice) == nearest_sampled(
            builder.radius_spec() as int,
            point,
            lattice,
        ),
{
}

/// Exactly when a point can be sampled: every offset within the radius
/// must stay representable and the sample count addressable.
pub proof fn lemma_nearest_can_build_iff<S: Copy + Default>(
    builder: NearestNeighborhoodBuilder1,
    point: UniversalLatticePoint<1>,
    lattice: UniversalLattice<1, S>,
)
    ensures
        builder.can_build(point, lattice) <==> (builder.radius_spec() <= usize::MAX / 2
            && i128::MIN <= point@[0] - builder.radius_spec() && point@[0] + builder.radius_spec()
            <= i128::MAX),
{
}

/// Every point of a lattice's own domain can be sampled by a builder of
/// any reasonable radius: domain coordinates are bounded by the axis
/// extent, far from the representable extremes, so a step over the whole
/// domain is always allowed.
pub proof fn lemma_nearest_can_build_domain<S: Copy + Default>(
    builder: NearestNeighborhoodBuilder1,
    lattice: UniversalLattice<1, S>,
)
    requires
        builder.radius_spec() <= usize::MAX / 2,
    ensures
        forall|i: int|
            0 <= i < lattice.domain().len() ==> builder.can_build(
                #[trigger] lattice.domain()[i],
                lattice,
            ),
{
    lattice.lemma_domain_in_box();
    assert forall|i: int| 0 <= i < lattice.domain().len() implies builder.can_build(
        #[trigger] lattice.domain()[i],
        lattice,
    ) by {
        let p = lattice.domain()[i];
        assert(0 <= p@[0] < lattice.size_spec()@[0]);
    }
}

impl<S: Copy + Default> NeighborhoodBuilder<UniversalLattice<1, S>> for NearestNeighborhoodBuilder1 {
    type Neighborhood = NearestNeighborhood1<S>;

    /// Every neighbor coordinate within the radius must stay
    /// representable, and the sample count must be addressable.
    closed spec fn can_build(
        self,
        point: UniversalLatticePoint<1>,
        lattice: UniversalLattice<1, S>,
    ) -> bool {
        &&& self.radius <= usize::MAX / 2
        &&& i128::MIN <= point@[0] - self.radius
        &&& point@[0] + self.radius <= i128::MAX
    }

    closed spec fn sampled_states(
        self,
        point: UniversalLatticePoint<1>,
        lattice: UniversalLattice<1, S>,
    ) -> Seq<S> {
        nearest_sampled(self.radius as int, point, lattice)
    }

    fn build_neighborhood(
        &self,
        point: &UniversalLatticePoint<1>,
        lattice: &UniversalLattice<1, S>,
    ) -> (n: NearestNeighborhood1<S>) {
        let x = *point.get(0).unwrap();
        let r = self.radius;
        let ghost ri = r as int;
        let total = 2 * r;
        let mut states: Vec<S> = Vec::new();
        let mut k: usize = 0;
        while k < total
            invariant
                total == 2 * ri,
                ri == self.radius,
                r == self.radius,
                x == point@[0],
                self.radius <= usize::MAX / 2,
                i128::MIN <= point@[0] - ri,
                point@[0] + ri <= i128::MAX,
                k <= total,
                states@.len() == k,
                forall|j: int|
                    0 <= j < k ==> #[trigger] states@[j] == nearest_sampled(ri, *point, *lattice)[j],
            decreases total - k,
        {
            let offset = if k < r {
                -((r - k) as i128)
            } else {
                (k - r + 1) as i128
            };
            proof {
                assert(offset == nearest_offset(ri, k as int));
            }
            let neighbor = UniversalPoint::new([x + offset]);
            let state = lattice.get_state(&neighbor);
            proof {
                let coords = seq![(point@[0] + nearest_offset(ri, k as int)) as i128];
                assert(neighbor@ =~= coords);
                lemma_point_of_coords::<1>(coords);
                lemma_point_view_injective(neighbor, point_of_coords::<1>(coords));
            }
            states.push(state);
            k += 1;
        }
        let n = NearestNeighborhood1 { states };
        proof {
            assert(n.states_view() =~= nearest_sampled(ri, *point, *lattice));
        }
        n
    }
}

} // verus!
