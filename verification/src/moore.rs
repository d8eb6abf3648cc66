//! The Moore neighborhood of a two-dimensional lattice: the eight
//! orthogonal and diagonal neighbors of a cell, in a fixed order, the
//! center excluded.

use vstd::prelude::*;

use crate::types::BoundaryHandlingLattice;
use crate::types::Lattice;
use crate::types::Neighborhood;
use crate::types::NeighborhoodBuilder;
use crate::universal_lattice::UniversalLattice;
use crate::universal_point::lemma_point_of_coords;
use crate::universal_point::lemma_point_view_injective;
use crate::universal_point::point_of_coords;
use crate::universal_point::UniversalLatticePoint;
use crate::universal_point::UniversalPoint;

verus! {

broadcast use crate::universal_point::lemma_universal_point_len;

/// The eight Moore offsets, in the fixed sampling order.
pub open spec fn moore_offsets() -> Seq<(int, int)> {
    seq![
        (-1int, -1int),
        (0int, -1int),
        (1int, -1int),
        (-1int, 0int),
        (1int, 0int),
        (-1int, 1int),
        (0int, 1int),
        (1int, 1int),
    ]
}

/// The states of the eight cells around `(x, y)`, each read through the
/// lattice's boundary handling.
pub open spec fn moore_sampled<S: Copy + Default>(
    p: UniversalLatticePoint<2>,
    lattice: UniversalLattice<2, S>,
) -> Seq<S> {
    Seq::new(
        8,
        |k: int|
            lattice.state_of(
                point_of_coords::<2>(
                    seq![
                        (p@[0] + moore_offsets()[k].0) as i128,
                        (p@[1] + moore_offsets()[k].1) as i128,
                    ],
                ),
            ),
    )
}

/// The eight neighbor states sampled around one 2D point.
#[derive(Debug)]
pub struct MooreNeighborhood<S> {
    states: Vec<S>,
}

impl<S> Neighborhood for MooreNeighborhood<S> {
    type State = S;

    closed spec fn states_view(self) -> Seq<S> {
        self.states@
    }

    fn iter_states(&self) -> (r: &Vec<S>) {
        &self.states
    }
}

/// Samples the eight Moore neighbors of a 2D cell.
#[derive(Debug)]
pub struct MooreNeighborhoodBuilder;

impl<S: Copy + Default> NeighborhoodBuilder<UniversalLattice<2, S>> for MooreNeighborhoodBuilder {
    type Neighborhood = MooreNeighborhood<S>;

    /// The neighbor coordinates one step away must stay representable.
    closed spec fn can_build(
        self,
        point: UniversalLatticePoint<2>,
        lattice: UniversalLattice<2, S>,
    ) -> bool {
        &&& i128::MIN < point@[0] < i128::MAX
        &&& i128::MIN < point@[1] < i128::MAX
    }

    closed spec fn sampled_states(
        self,
        point: UniversalLatticePoint<2>,
        lattice: UniversalLattice<2, S>,
    ) -> Seq<S> {
        moore_sampled(point, lattice)
    }

    fn build_neighborhood(
        &self,
        point: &UniversalLatticePoint<2>,
        lattice: &UniversalLattice<2, S>,
    ) -> (n: MooreNeighborhood<S>) {
        let x = *point.get(0).unwrap();
        let y = *point.get(1).unwrap();
        let mut states: Vec<S> = Vec::new();

        let neighbor = UniversalPoint::new([x - 1, y - 1]);
        states.push(lattice.get_state(&neighbor));
        proof {
            lemma_neighbor_state(*lattice, neighbor, x - 1, y - 1);
        }
        let neighbor = UniversalPoint::new([x, y - 1]);
        states.push(lattice.get_state(&neighbor));
        proof {
            lemma_neighbor_state(*lattice, neighbor, x as int, y - 1);
        }
        let neighbor = UniversalPoint::new([x + 1, y - 1]);
        states.push(lattice.get_state(&neighbor));
        proof {
            lemma_neighbor_state(*lattice, neighbor, x + 1, y - 1);
        }
        let neighbor = UniversalPoint::new([x - 1, y]);
        states.push(lattice.get_state(&neighbor));
        proof {
            lemma_neighbor_state(*lattice, neighbor, x - 1, y as int);
        }
        let neighbor = UniversalPoint::new([x + 1, y]);
        states.push(lattice.get_state(&neighbor));
        proof {
            lemma_neighbor_state(*lattice, neighbor, x + 1, y as int);
        }
        let neighbor = UniversalPoint::new([x - 1, y + 1]);
        states.push(lattice.get_state(&neighbor));
        proof {
            lemma_neighbor_state(*lattice, neighbor, x - 1, y + 1);
        }
        let neighbor = UniversalPoint::new([x, y + 1]);
        states.push(lattice.get_state(&neighbor));
        proof {
            lemma_neighbor_state(*lattice, neighbor, x as int, y + 1);
        }
        let neighbor = UniversalPoint::new([x + 1, y + 1]);
        states.push(lattice.get_state(&neighbor));
        proof {
            lemma_neighbor_state(*lattice, neighbor, x + 1, y + 1);
        }

        let n = MooreNeighborhood { states };
        proof {
            assert(n.states_view() =~= moore_sampled(*point, *lattice));
        }
        n
    }
}

/// The builder samples exactly the eight Moore cells, in the fixed order.
pub proof fn lemma_moore_sampled_states<S: Copy + Default>(
    builder: MooreNeighborhoodBuilder,
    point: UniversalLatticePoint<2>,
    lattice: UniversalLattice<2, S>,
)
    ensures
        builder.sampled_states(point, lattice) == moore_sampled(point, lattice),
{
}

/// Exactly when a point can be sampled: both coordinates must sit
/// strictly between the representable extremes, so each one-step offset
/// exists.
pub proof fn lemma_moore_can_build_iff<S: Copy + Default>(
    builder: MooreNeighborhoodBuilder,
    point: UniversalLatticePoint<2>,
    lattice: UniversalLattice<2, S>,
)
    ensures
        builder.can_build(point, lattice) <==> (i128::MIN < point@[0] < i128::MAX && i128::MIN
            < point@[1] < i128::MAX),
{
}

/// Every point of a lattice's own domain can be sampled: its coordinates
/// are bounded by the axis extents, far from the representable extremes,
/// so a step over the whole domain is always allowed.
pub proof fn lemma_moore_can_build_domain<S: Copy + Default>(
    builder: MooreNeighborhoodBuilder,
    lattice: UniversalLattice<2, S>,
)
    ensures
        forall|i: int|
            0 <= i < lattice.domain().len() ==> builder.can_build(
                #[trigger] lattice.domain()[i],
                lattice,
            ),
{
    lattice.lemma_domain_in_box();
    assert forall|i: int| 0 <= i < lattice.domain().len() implies builder.can_build(
        #[trigger] lattice.domain()[i],
        lattice,
    ) by {
        let p = lattice.domain()[i];
        assert(0 <= p@[0] < lattice.size_spec()@[0]);
        assert(0 <= p@[1] < lattice.size_spec()@[1]);
    }
}

/// Reading the lattice at a point with the given coordinates reads the
/// cell `moore_sampled` describes.
proof fn lemma_neighbor_state<S: Copy + Default>(
    lattice: UniversalLattice<2, S>,
    neighbor: UniversalLatticePoint<2>,
    a: int,
    b: int,
)
    requires
        neighbor@ =~= seq![a as i128, b as i128],
    ensures
        lattice.state_of(neighbor) == lattice.state_of(
            point_of_coords::<2>(seq![a as i128, b as i128]),
        ),
{
    lemma_point_of_coords::<2>(seq![a as i128, b as i128]);
    lemma_point_view_injective(neighbor, point_of_coords::<2>(seq![a as i128, b as i128]));
}

} // verus!
