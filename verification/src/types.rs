//! The contracts every lattice, neighborhood strategy, rule and automaton
//! obeys, and the synchronous two-phase `step` algorithm, proved once for
//! every implementation: a generation's neighbor reads never observe
//! another cell's already-updated next-generation value.

use vstd::prelude::*;

verus! {

/// How a coordinate outside `[0, extent)` is resolved against an axis.
#[derive(Debug, Clone, Copy, PartialEq, Eq, Structural)]
pub enum BoundaryHandling {
    /// No mapping: an out-of-range point stays out of range and addresses
    /// no cell.
    Unbounded,
    /// Toroidal: the coordinate is reduced modulo the extent, with floored
    /// semantics so negative inputs wrap to the high end.
    Wrap,
    /// The coordinate is pinned into `[0, extent - 1]`.
    Clamp,
}

impl Default for BoundaryHandling {
    /// A fresh lattice leaves out-of-range points unmapped.
    fn default() -> (r: Self)
        ensures
            r == BoundaryHandling::Unbounded,
    {
        BoundaryHandling::Unbounded
    }
}

/// A grid of cells addressed by points. Reads are total: a point that
/// addresses no cell yields the grid's default state. Writes touch exactly
/// one cell, identified up to `same_cell` aliasing (distinct points may
/// reach one cell through boundary handling).
pub trait Lattice: Sized {
    type Point;

    type State;

    /// Everything about the grid except its cell contents — for a bounded
    /// lattice, its bounding box and boundary mode. Writes and steps
    /// change cells only: they leave the configuration untouched.
    type Config;

    /// The grid's configuration, which `set_state` and `step` preserve.
    spec fn config(self) -> Self::Config;

    /// Every addressable point of the grid, in the fixed deterministic
    /// order `points` enumerates and `step` updates.
    spec fn domain(self) -> Seq<Self::Point>;

    /// The state read at a point, after boundary handling.
    spec fn state_of(self, point: Self::Point) -> Self::State;

    /// The state a point holds when no cell backs it or none was written.
    spec fn default_state(self) -> Self::State;

    /// Whether the point reaches a cell at all, so a write to it lands.
    spec fn writable(self, point: Self::Point) -> bool;

    /// Whether two points reach the same cell.
    spec fn same_cell(self, p: Self::Point, q: Self::Point) -> bool;

    /// The domain enumerates writable cells, each exactly once: a write to
    /// one domain point never disturbs another.
    proof fn lemma_domain_cells(&self)
        ensures
            forall|i: int|
                0 <= i < self.domain().len() ==> self.writable(#[trigger] self.domain()[i]),
            forall|i: int|
                0 <= i < self.domain().len() ==> self.same_cell(
                    #[trigger] self.domain()[i],
                    self.domain()[i],
                ),
            forall|i: int, j: int|
                0 <= i < self.domain().len() && 0 <= j < self.domain().len() && i != j
                    ==> !self.same_cell(#[trigger] self.domain()[i], #[trigger] self.domain()[j]),
    ;

    /// Points that reach the same cell read the same state.
    proof fn lemma_same_cell_state(&self, p: Self::Point, q: Self::Point)
        requires
            self.same_cell(p, q),
        ensures
            self.state_of(p) == self.state_of(q),
            self.writable(p) == self.writable(q),
    ;

    fn get_state(&self, point: &Self::Point) -> (s: Self::State)
        ensures
            s == self.state_of(*point),
    ;

    fn set_state(&mut self, point: &Self::Point, state: &Self::State)
        ensures
            final(self).config() == old(self).config(),
            final(self).domain() == old(self).domain(),
            final(self).default_state() == old(self).default_state(),
            forall|p: Self::Point| #[trigger] final(self).writable(p) == old(self).writable(p),
            forall|p: Self::Point, q: Self::Point| #[trigger]
                final(self).same_cell(p, q) == old(self).same_cell(p, q),
            forall|q: Self::Point|
                #[trigger] final(self).state_of(q) == (if old(self).writable(*point) && old(
                    self,
                ).same_cell(*point, q) {
                    *state
                } else {
                    old(self).state_of(q)
                }),
    ;

    fn points(&self) -> (r: Vec<Self::Point>)
        ensures
            r@ == self.domain(),
    ;

    fn states(&self) -> (r: Vec<Self::State>)
        ensures
            r@.len() == self.domain().len(),
            forall|i: int|
                0 <= i < r@.len() ==> r@[i] == self.state_of(#[trigger] self.domain()[i]),
    ;
}

/// A lattice with an explicit bounding box and a configurable boundary
/// mode: out-of-range points are resolved by `transform_point` before any
/// cell is read or written, and the box can be grown or shrunk in place.
pub trait BoundaryHandlingLattice: Lattice {
    type Size: Copy;

    /// The current bounding box.
    spec fn size_spec(self) -> Self::Size;

    /// The current boundary mode.
    spec fn boundary_spec(self) -> BoundaryHandling;

    /// The point actually read or written when `point` is addressed.
    spec fn transformed(self, point: Self::Point) -> Self::Point;

    /// How many states an initial-states sequence for `size` must hold:
    /// one per addressable cell.
    spec fn required_len(size: Self::Size) -> nat;

    /// Machine bounds on a box: its cell count must be addressable.
    spec fn size_ok(size: Self::Size) -> bool;

    /// The configuration is exactly the bounding box and the boundary
    /// mode: whatever preserves one preserves the others. Together with
    /// `set_state`'s and `step`'s contracts this makes the box and the
    /// mode survive every write and every generation.
    proof fn lemma_config_determines(&self, other: Self)
        requires
            self.config() == other.config(),
        ensures
            self.size_spec() == other.size_spec(),
            self.boundary_spec() == other.boundary_spec(),
    ;

    /// Builds a lattice over `[0, size)` whose cells hold `states`, in
    /// row-major order with axis 0 varying fastest, under the default
    /// (unbounded) boundary mode.
    fn from_states(states: Vec<Self::State>, size: Self::Size) -> (r: Self)
        requires
            Self::size_ok(size),
            states@.len() == Self::required_len(size),
        ensures
            r.size_spec() == size,
            r.boundary_spec() == BoundaryHandling::Unbounded,
            r.domain().len() == states@.len(),
            forall|i: int|
                0 <= i < states@.len() ==> r.state_of(#[trigger] r.domain()[i]) == states@[i],
    ;

    fn transform_point(&self, point: &Self::Point) -> (r: Self::Point)
        ensures
            r == self.transformed(*point),
    ;

    /// Changes the boundary mode. The grid itself is untouched: every
    /// in-range cell keeps its state.
    fn set_boundary_handling(&mut self, boundary_handling: BoundaryHandling)
        ensures
            final(self).boundary_spec() == boundary_handling,
            final(self).size_spec() == old(self).size_spec(),
            final(self).domain() == old(self).domain(),
            final(self).default_state() == old(self).default_state(),
            forall|i: int|
                0 <= i < old(self).domain().len() ==> final(self).state_of(
                    #[trigger] old(self).domain()[i],
                ) == old(self).state_of(old(self).domain()[i]),
    ;

    fn boundary_handling(&self) -> (r: BoundaryHandling)
        ensures
            r == self.boundary_spec(),
    ;

    fn size(&self) -> (r: Self::Size)
        ensures
            r == self.size_spec(),
    ;

    /// Replaces the bounding box: cells inside both boxes keep their
    /// state, cells only in the new box hold the default, and every cell
    /// outside the new box is discarded.
    fn set_size(&mut self, size: Self::Size)
        requires
            Self::size_ok(size),
        ensures
            final(self).size_spec() == size,
            final(self).boundary_spec() == old(self).boundary_spec(),
            final(self).default_state() == old(self).default_state(),
            forall|i: int|
                0 <= i < final(self).domain().len() ==> final(self).state_of(
                    #[trigger] final(self).domain()[i],
                ) == (if old(self).domain().contains(final(self).domain()[i]) {
                    old(self).state_of(final(self).domain()[i])
                } else {
                    old(self).default_state()
                }),
    ;
}

/// Two lattices with the same cell structure: writes to one are described
/// by the same aliasing as writes to the other. Every mutation a `Lattice`
/// method performs short of resizing preserves this.
pub open spec fn same_shape<L: Lattice>(a: L, b: L) -> bool {
    &&& b.config() == a.config()
    &&& b.domain() == a.domain()
    &&& b.default_state() == a.default_state()
    &&& forall|p: L::Point| #[trigger] b.writable(p) == a.writable(p)
    &&& forall|p: L::Point, q: L::Point| #[trigger] b.same_cell(p, q) == a.same_cell(p, q)
}

/// An ephemeral, read-only ordered sequence of neighbor states sampled
/// around one point for one rule evaluation.
pub trait Neighborhood: Sized {
    type State;

    /// The sampled states, in the builder's fixed sampling order.
    spec fn states_view(self) -> Seq<Self::State>;

    fn iter_states(&self) -> (r: &Vec<Self::State>)
        ensures
            r@ == self.states_view(),
    ;
}

/// A strategy that samples a fixed ordered set of neighbor states around a
/// point, reading the lattice and never mutating it.
pub trait NeighborhoodBuilder<L: Lattice>: Sized {
    type Neighborhood: Neighborhood<State = L::State>;

    /// When sampling is defined: machine bounds on the neighbor
    /// coordinates the strategy offsets to.
    spec fn can_build(self, point: L::Point, lattice: L) -> bool;

    /// The states the strategy samples around `point`, in order.
    spec fn sampled_states(self, point: L::Point, lattice: L) -> Seq<L::State>;

    fn build_neighborhood(&self, point: &L::Point, lattice: &L) -> (n: Self::Neighborhood)
        requires
            self.can_build(*point, *lattice),
        ensures
            n.states_view() == self.sampled_states(*point, *lattice),
    ;
}

/// A pure transition function from a cell's current state and its sampled
/// neighborhood to its next state.
pub trait Rule: Sized {
    type State;

    /// The transition the rule computes.
    spec fn next_state(self, current: Self::State, neighbors: Seq<Self::State>) -> Self::State;

    fn apply<N: Neighborhood<State = Self::State>>(
        &self,
        current_state: &Self::State,
        neighbors: &N,
    ) -> (r: Self::State)
        ensures
            r == self.next_state(*current_state, neighbors.states_view()),
    ;
}

/// One rule and one neighborhood strategy, driving whole-grid generations.
///
/// `step` is provided once, for every automaton: it snapshots the domain,
/// computes every next state against the pre-step lattice, and only then
/// commits, so the result at every domain point is the rule applied to the
/// old state and the old neighborhood — independent of enumeration order.
pub trait CellularAutomaton: Sized {
    type Lattice: Lattice;

    type Rule: Rule<State = <Self::Lattice as Lattice>::State>;

    type NeighborhoodBuilder: NeighborhoodBuilder<Self::Lattice>;

    /// The rule value `rule` returns.
    spec fn rule_spec(self) -> Self::Rule;

    /// The builder value `neighborhood_builder` returns.
    spec fn builder_spec(self) -> Self::NeighborhoodBuilder;

    fn rule(&self) -> (r: &Self::Rule)
        ensures
            *r == self.rule_spec(),
    ;

    fn neighborhood_builder(&self) -> (b: Self::NeighborhoodBuilder)
        ensures
            b == self.builder_spec(),
    ;

    /// Advances the lattice one generation: every domain point's new state
    /// is the rule applied to its old state and its old neighborhood, and
    /// cells no domain point reaches are untouched.
    fn step(&self, lattice: &mut Self::Lattice)
        requires
            forall|i: int|
                0 <= i < old(lattice).domain().len() ==> self.builder_spec().can_build(
                    #[trigger] old(lattice).domain()[i],
                    *old(lattice),
                ),
        ensures
            same_shape(*old(lattice), *final(lattice)),
            forall|i: int|
                0 <= i < old(lattice).domain().len() ==> final(lattice).state_of(
                    #[trigger] old(lattice).domain()[i],
                ) == self.rule_spec().next_state(
                    old(lattice).state_of(old(lattice).domain()[i]),
                    self.builder_spec().sampled_states(old(lattice).domain()[i], *old(lattice)),
                ),
            forall|q: <Self::Lattice as Lattice>::Point|
                (forall|i: int|
                    0 <= i < old(lattice).domain().len() ==> !old(lattice).same_cell(
                        #[trigger] old(lattice).domain()[i],
                        q,
                    )) ==> #[trigger] final(lattice).state_of(q) == old(lattice).state_of(q),
    {
        let ghost snapshot = *lattice;
        let ghost rspec = self.rule_spec();
        let ghost bspec = self.builder_spec();
        let points = lattice.points();
        let rule = self.rule();
        let builder = self.neighborhood_builder();
        let n = points.len();

        let mut new_states: Vec<<Self::Lattice as Lattice>::State> = Vec::new();
        let mut i: usize = 0;
        while i < n
            invariant
                i <= n,
                n == points@.len(),
                points@ == snapshot.domain(),
                *lattice == snapshot,
                *rule == rspec,
                builder == bspec,
                forall|j: int|
                    0 <= j < n ==> bspec.can_build(#[trigger] points@[j], snapshot),
                new_states@.len() == i,
                forall|j: int|
                    0 <= j < i ==> #[trigger] new_states@[j] == rspec.next_state(
                        snapshot.state_of(points@[j]),
                        bspec.sampled_states(points@[j], snapshot),
                    ),
            decreases n - i,
        {
            let point = &points[i];
            let neighborhood = builder.build_neighborhood(point, lattice);
            let current_state = lattice.get_state(point);
            let new_state = rule.apply(&current_state, &neighborhood);
            new_states.push(new_state);
            i += 1;
        }

        let mut k: usize = 0;
        while k < n
            invariant
                k <= n,
                n == points@.len(),
                points@ == snapshot.domain(),
                new_states@.len() == n,
                forall|j: int|
                    0 <= j < n ==> #[trigger] new_states@[j] == rspec.next_state(
                        snapshot.state_of(points@[j]),
                        bspec.sampled_states(points@[j], snapshot),
                    ),
                same_shape(snapshot, *lattice),
                forall|j: int|
                    0 <= j < k ==> lattice.state_of(#[trigger] points@[j]) == new_states@[j],
                forall|q: <Self::Lattice as Lattice>::Point|
                    (forall|j: int|
                        0 <= j < k ==> !snapshot.same_cell(#[trigger] points@[j], q))
                        ==> #[trigger] lattice.state_of(q) == snapshot.state_of(q),
            decreases n - k,
        {
            proof {
                snapshot.lemma_domain_cells();
            }
            let point = &points[k];
            let state = &new_states[k];
            lattice.set_state(point, state);
            k += 1;
        }
        proof {
            snapshot.lemma_domain_cells();
        }
    }
}

} // verus!
