//! The global guarantees of the engine, each proved from the public
//! contracts: boundary handling leaves in-range points alone and is
//! idempotent under clamping, wrapping is a true torus, the two-phase
//! step is order-independent, rebuilding a lattice from its own states
//! reproduces it, and an empty lattice never changes.

use vstd::prelude::*;

use crate::game_of_life::GameOfLifeAutomaton;
use crate::game_of_life::GameOfLifeState;
use crate::moore::lemma_moore_can_build_domain;
use crate::nearest::lemma_nearest_can_build_domain;
use crate::nearest::lemma_spec_new_radius;
use crate::types::same_shape;
use crate::types::BoundaryHandling;
use crate::types::BoundaryHandlingLattice;
use crate::types::CellularAutomaton;
use crate::types::Lattice;
use crate::types::NeighborhoodBuilder;
use crate::types::Rule;
use crate::universal_lattice::UniversalLattice;
use crate::universal_point::lemma_point_view_injective;
use crate::universal_point::UniversalLatticePoint;
use crate::utils::clamp_spec;
use crate::utils::transform_coords;
use crate::wolfram_code::WolframCodeAutomaton;
use crate::wolfram_code::WolframCodeState;

verus! {

broadcast use crate::universal_point::lemma_universal_point_len;

/// Clamping is idempotent: transforming an already-clamped point returns
/// it unchanged.
pub proof fn lemma_clamp_idempotent(p: Seq<i128>, dims: Seq<usize>)
    requires
        p.len() == dims.len(),
    ensures
        transform_coords(
            BoundaryHandling::Clamp,
            transform_coords(BoundaryHandling::Clamp, p, dims),
            dims,
        ) == transform_coords(BoundaryHandling::Clamp, p, dims),
{
    let once = transform_coords(BoundaryHandling::Clamp, p, dims);
    assert forall|i: int| 0 <= i < once.len() implies transform_coords(
        BoundaryHandling::Clamp,
        once,
        dims,
    )[i] == once[i] by {
        assert(once[i] == clamp_spec(p[i] as int, dims[i] as int) as i128);
    }
    assert(transform_coords(BoundaryHandling::Clamp, once, dims) =~= once);
}

/// Clamp mode is idempotent at the point level too: transforming an
/// already-clamped point returns it unchanged.
pub proof fn lemma_clamp_transform_idempotent<const D: usize, S: Copy + Default>(
    lattice: UniversalLattice<D, S>,
    p: UniversalLatticePoint<D>,
)
    requires
        lattice.boundary_spec() == BoundaryHandling::Clamp,
    ensures
        lattice.transformed(lattice.transformed(p)) == lattice.transformed(p),
{
    let once = lattice.transformed(p);
    lattice.lemma_transformed_coords(p);
    lattice.lemma_transformed_coords(once);
    lemma_clamp_idempotent(p@, lattice.size_spec()@);
    lemma_point_view_injective(lattice.transformed(once), once);
}

/// Wrap mode is a true torus: on any axis with cells, coordinate `-1`
/// reads the same cell as coordinate `extent - 1`, whatever the other
/// axes hold.
pub proof fn lemma_wrap_torus<const D: usize, S: Copy + Default>(
    lattice: UniversalLattice<D, S>,
    p: UniversalLatticePoint<D>,
    q: UniversalLatticePoint<D>,
    axis: int,
)
    requires
        lattice.boundary_spec() == BoundaryHandling::Wrap,
        0 <= axis < D,
        lattice.size_spec()@[axis] > 0,
        p@[axis] == -1,
        q@[axis] == lattice.size_spec()@[axis] - 1,
        forall|j: int| 0 <= j < D && j != axis ==> p@[j] == q@[j],
    ensures
        lattice.state_of(p) == lattice.state_of(q),
{
    let dims = lattice.size_spec()@;
    let tp = transform_coords(BoundaryHandling::Wrap, p@, dims);
    let tq = transform_coords(BoundaryHandling::Wrap, q@, dims);
    assert forall|j: int| 0 <= j < D implies tp[j] == tq[j] by {
        if j == axis {
            let n = dims[axis] as int;
            assert((-1int) % n == n - 1) by {
                vstd::arithmetic::div_mod::lemma_fundamental_div_mod_converse_mod(-1, n, -1, n - 1);
            };
            vstd::arithmetic::div_mod::lemma_small_mod((n - 1) as nat, n as nat);
        }
    }
    assert(tp =~= tq);
    lattice.lemma_resolved_state(p, q);
}

/// Exactly what one `step` promises of the lattice it produced, phrased
/// of the pre-step snapshot: the shape is kept, every domain point holds
/// the rule's answer computed against the snapshot, and untouched cells
/// are unchanged.
pub open spec fn step_post<A: CellularAutomaton>(a: A, pre: A::Lattice, post: A::Lattice) -> bool {
    &&& same_shape(pre, post)
    &&& forall|i: int|
        0 <= i < pre.domain().len() ==> post.state_of(#[trigger] pre.domain()[i])
            == a.rule_spec().next_state(
            pre.state_of(pre.domain()[i]),
            a.builder_spec().sampled_states(pre.domain()[i], pre),
        )
    &&& forall|q: <A::Lattice as Lattice>::Point|
        (forall|i: int| 0 <= i < pre.domain().len() ==> !pre.same_cell(#[trigger] pre.domain()[i], q))
            ==> #[trigger] post.state_of(q) == pre.state_of(q)
}

/// `step` is order-independent: its contract pins the produced lattice
/// pointwise against the pre-step snapshot alone, so any two runs from
/// the same snapshot — whatever order their compute or commit phases
/// enumerated the points in — read identically everywhere.
pub proof fn lemma_step_order_independent<A: CellularAutomaton>(
    a: A,
    pre: A::Lattice,
    l1: A::Lattice,
    l2: A::Lattice,
)
    requires
        step_post(a, pre, l1),
        step_post(a, pre, l2),
    ensures
        forall|q: <A::Lattice as Lattice>::Point| l1.state_of(q) == l2.state_of(q),
{
    assert forall|q: <A::Lattice as Lattice>::Point| l1.state_of(q) == l2.state_of(q) by {
        if exists|i: int|
            0 <= i < pre.domain().len() && pre.same_cell(#[trigger] pre.domain()[i], q) {
            let i = choose|i: int|
                0 <= i < pre.domain().len() && pre.same_cell(#[trigger] pre.domain()[i], q);
            assert(l1.same_cell(pre.domain()[i], q));
            assert(l2.same_cell(pre.domain()[i], q));
            l1.lemma_same_cell_state(pre.domain()[i], q);
            l2.lemma_same_cell_state(pre.domain()[i], q);
        }
    }
}

/// Rebuilding a lattice from its own states-in-point-order and size
/// reproduces an equivalent lattice: the two requirements are exactly
/// what `states` hands out and what `from_states` promises of what it
/// built from that, and every cell of the rebuilt lattice reads as the
/// original's.
pub proof fn lemma_states_round_trip<const D: usize, S: Copy + Default>(
    lattice: UniversalLattice<D, S>,
    states: Seq<S>,
    rebuilt: UniversalLattice<D, S>,
)
    requires
        states.len() == lattice.domain().len(),
        forall|i: int|
            0 <= i < states.len() ==> states[i] == lattice.state_of(#[trigger] lattice.domain()[i]),
        rebuilt.size_spec() == lattice.size_spec(),
        rebuilt.domain().len() == states.len(),
        forall|i: int|
            0 <= i < states.len() ==> rebuilt.state_of(#[trigger] rebuilt.domain()[i]) == states[i],
    ensures
        rebuilt.domain() == lattice.domain(),
        forall|i: int|
            0 <= i < lattice.domain().len() ==> rebuilt.state_of(#[trigger] lattice.domain()[i])
                == lattice.state_of(lattice.domain()[i]),
{
    lattice.lemma_domain_of_size(rebuilt);
}

/// A whole-grid step of the threshold automaton is permitted on every
/// lattice: `step` asks only that each domain point's neighbors stay
/// representable, and domain coordinates are bounded by the box.
pub proof fn lemma_life_step_always_allowed(
    automaton: GameOfLifeAutomaton,
    lattice: UniversalLattice<2, GameOfLifeState>,
)
    ensures
        forall|i: int|
            0 <= i < lattice.domain().len() ==> automaton.builder_spec().can_build(
                #[trigger] lattice.domain()[i],
                lattice,
            ),
{
    lemma_moore_can_build_domain(automaton.builder_spec(), lattice);
}

/// A whole-grid step of the elementary automaton is permitted on every
/// lattice, for the same reason.
pub proof fn lemma_wolfram_step_always_allowed(
    automaton: WolframCodeAutomaton,
    lattice: UniversalLattice<1, WolframCodeState>,
)
    ensures
        forall|i: int|
            0 <= i < lattice.domain().len() ==> automaton.builder_spec().can_build(
                #[trigger] lattice.domain()[i],
                lattice,
            ),
{
    lemma_spec_new_radius(1);
    lemma_nearest_can_build_domain(automaton.builder_spec(), lattice);
}

/// A lattice with no addressable points — any axis of extent zero — is
/// left exactly as it was by a step.
pub proof fn lemma_empty_lattice_step<A: CellularAutomaton>(a: A, pre: A::Lattice, post: A::Lattice)
    requires
        step_post(a, pre, post),
        pre.domain().len() == 0,
    ensures
        forall|q: <A::Lattice as Lattice>::Point| post.state_of(q) == pre.state_of(q),
{
}

} // verus!
