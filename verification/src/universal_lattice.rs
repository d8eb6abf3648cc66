//! The dimension-generic lattice: a dense row-major grid of states over a
//! bounding box, with boundary handling applied to every read and write.

use vstd::prelude::*;

use crate::types::BoundaryHandling;
use crate::types::BoundaryHandlingLattice;
use crate::types::Lattice;
use crate::universal_point::lemma_point_of_coords;
use crate::universal_point::lemma_point_view_injective;
use crate::universal_point::point_of_coords;
use crate::universal_point::UniversalLatticePoint;
use crate::universal_point::UniversalLatticeSize;
use crate::utils::checked_size_product;
use crate::utils::flat_index_of;
use crate::utils::flat_of;
use crate::utils::generate_points_until;
use crate::utils::in_box;
use crate::utils::lemma_flat_of_inverse;
use crate::utils::lemma_point_at_inverse;
use crate::utils::lemma_transform_in_box;
use crate::utils::point_at;
use crate::utils::point_from_flat_index;
use crate::utils::product_of;
use crate::utils::size_product;
use crate::utils::transform_coords;
use crate::utils::clamp_coordinate;
use crate::utils::wrap_coordinate;
use crate::utils::axis_transform;
use crate::universal_point::UniversalPoint;

verus! {

broadcast use crate::universal_point::lemma_universal_point_len;

/// Why a lattice could not be constructed from explicit initial states.
#[derive(Debug, Clone, Copy, PartialEq, Eq, Structural)]
pub enum LatticeError {
    /// The initial-states sequence does not hold exactly one state per
    /// addressable cell of the given bounding box.
    SizeMismatch,
}

/// A `D`-dimensional grid of `S` cells over the box `[0, size)`, stored
/// densely in row-major order (axis 0 fastest). Out-of-range points are
/// resolved by the current boundary mode before any cell is touched; a
/// point that still addresses no cell reads the default state captured at
/// construction, and a write to it is silently dropped.
#[derive(Debug)]
pub struct UniversalLattice<const D: usize, S> {
    cells: Vec<S>,
    size: UniversalLatticeSize<D>,
    boundary_handling: BoundaryHandling,
    fallback: S,
}

impl<const D: usize, S> UniversalLattice<D, S> {
    /// One state is stored per addressable cell of the bounding box.
    #[verifier::type_invariant]
    spec fn wf(self) -> bool {
        self.cells@.len() == product_of(self.size@)
    }

    /// The stored states, in row-major point order.
    pub closed spec fn grid(self) -> Seq<S> {
        self.cells@
    }
}

impl<const D: usize, S: Copy + Default> UniversalLattice<D, S> {
    /// The coordinates actually addressed when `coords` is resolved under
    /// the current boundary mode.
    pub closed spec fn resolved(self, coords: Seq<i128>) -> Seq<i128> {
        transform_coords(self.boundary_handling, coords, self.size@)
    }

    proof fn lemma_domain_index(self, i: int)
        requires
            0 <= i < self.domain().len(),
        ensures
            self.domain()[i]@ == point_at(i, self.size@),
            in_box(self.domain()[i]@, self.size@),
            flat_of(self.domain()[i]@, self.size@) == i,
            self.resolved(self.domain()[i]@) == self.domain()[i]@,
            self.state_of(self.domain()[i]) == self.grid()[i],
    {
        lemma_point_at_inverse(i, self.size@);
        lemma_point_of_coords::<D>(point_at(i, self.size@));
        lemma_transform_in_box(self.boundary_handling, self.domain()[i]@, self.size@);
    }

    /// Every domain point lies inside the bounding box, so its
    /// coordinates are bounded by the axis extents.
    pub proof fn lemma_domain_in_box(self)
        ensures
            forall|i: int|
                0 <= i < self.domain().len() ==> in_box(
                    #[trigger] self.domain()[i]@,
                    self.size_spec()@,
                ) && self.domain()[i]@ == point_at(i, self.size_spec()@),
    {
        assert forall|i: int| 0 <= i < self.domain().len() implies in_box(
            #[trigger] self.domain()[i]@,
            self.size@,
        ) && self.domain()[i]@ == point_at(i, self.size@) by {
            self.lemma_domain_index(i);
        }
    }

    /// A point already inside the bounding box is its own transform,
    /// whatever the boundary mode: boundary handling never moves in-range
    /// points.
    pub proof fn lemma_transform_identity_in_box(self, p: UniversalLatticePoint<D>)
        requires
            in_box(p@, self.size_spec()@),
        ensures
            self.transformed(p) == p,
    {
        lemma_transform_in_box(self.boundary_handling, p@, self.size@);
        lemma_point_of_coords::<D>(p@);
        lemma_point_view_injective(self.transformed(p), p);
    }

    /// What `transform_point` returns, coordinate by coordinate: the
    /// point's coordinates resolved per axis under the current boundary
    /// mode against the current box. This exposes the per-axis wrap and
    /// clamp formulas, and the unbounded pass-through, for every point,
    /// in range or not.
    pub proof fn lemma_transformed_coords(self, p: UniversalLatticePoint<D>)
        ensures
            self.transformed(p)@ == transform_coords(
                self.boundary_spec(),
                p@,
                self.size_spec()@,
            ),
    {
        lemma_point_of_coords::<D>(self.resolved(p@));
    }

    /// A point whose resolved coordinates still fall outside the box
    /// addresses no cell: it reads the default state.
    pub proof fn lemma_state_of_out_of_box(self, p: UniversalLatticePoint<D>)
        requires
            !in_box(
                transform_coords(self.boundary_spec(), p@, self.size_spec()@),
                self.size_spec()@,
            ),
        ensures
            self.state_of(p) == self.default_state(),
            !self.writable(p),
    {
    }

    /// Exactly when two points reach one cell: their coordinates resolve
    /// equally under the current boundary mode.
    pub proof fn lemma_same_cell_iff(self, p: UniversalLatticePoint<D>, q: UniversalLatticePoint<D>)
        ensures
            self.same_cell(p, q) <==> transform_coords(
                self.boundary_spec(),
                p@,
                self.size_spec()@,
            ) == transform_coords(self.boundary_spec(), q@, self.size_spec()@),
    {
    }

    /// Exactly when a write to a point lands: its resolved coordinates
    /// lie inside the box.
    pub proof fn lemma_writable_iff(self, p: UniversalLatticePoint<D>)
        ensures
            self.writable(p) <==> in_box(
                transform_coords(self.boundary_spec(), p@, self.size_spec()@),
                self.size_spec()@,
            ),
    {
    }

    /// The domain always enumerates one point per cell of the box,
    /// however the lattice was built.
    pub proof fn lemma_domain_len(self)
        ensures
            self.domain().len() == product_of(self.size_spec()@),
    {
    }

    /// The lattice's total addressable cell count, the product of its
    /// extents. A lattice only ever holds an addressable number of cells,
    /// so its own size always satisfies `size_ok`.
    pub fn cell_count(&self) -> (n: usize)
        ensures
            n == product_of(self.size_spec()@),
            Self::size_ok(self.size_spec()),
    {
        proof {
            use_type_invariant(&*self);
            vstd::std_specs::vec::axiom_spec_len(&self.cells);
        }
        self.cells.len()
    }

    /// Inside the bounding box a read is a plain grid lookup: the state
    /// of an in-range point is the stored row-major cell, whatever the
    /// boundary mode.
    pub proof fn lemma_state_of_in_box(self, p: UniversalLatticePoint<D>)
        requires
            in_box(p@, self.size_spec()@),
        ensures
            self.state_of(p) == self.grid()[flat_of(p@, self.size_spec()@)],
    {
        lemma_transform_in_box(self.boundary_handling, p@, self.size@);
    }

    /// Two points that resolve to the same coordinates under the current
    /// boundary mode reach the same cell and read the same state.
    pub proof fn lemma_resolved_state(
        self,
        p: UniversalLatticePoint<D>,
        q: UniversalLatticePoint<D>,
    )
        requires
            transform_coords(self.boundary_spec(), p@, self.size_spec()@) == transform_coords(
                self.boundary_spec(),
                q@,
                self.size_spec()@,
            ),
        ensures
            self.state_of(p) == self.state_of(q),
            self.same_cell(p, q),
    {
    }

    /// The domain is determined by the bounding box alone.
    pub proof fn lemma_domain_of_size(self, other: Self)
        requires
            other.size_spec() == self.size_spec(),
        ensures
            other.domain() == self.domain(),
    {
        assert(other.domain() =~= self.domain());
    }

    /// A box with an empty axis has no addressable points at all.
    pub proof fn lemma_zero_axis_empty(self, axis: int)
        requires
            0 <= axis < D,
            self.size_spec()@[axis] == 0,
        ensures
            self.domain().len() == 0,
    {
        crate::utils::lemma_product_positive(self.size@);
    }

    /// The domain holds exactly the points of the box `[0, size)`.
    proof fn lemma_domain_contains(self, p: UniversalLatticePoint<D>)
        ensures
            self.domain().contains(p) <==> in_box(p@, self.size@),
    {
        if in_box(p@, self.size@) {
            lemma_flat_of_inverse(p@, self.size@);
            let i = flat_of(p@, self.size@);
            self.lemma_domain_index(i);
            lemma_point_view_injective(self.domain()[i], p);
            assert(self.domain().contains(p));
        }
        if self.domain().contains(p) {
            let i = choose|i: int| 0 <= i < self.domain().len() && self.domain()[i] == p;
            self.lemma_domain_index(i);
        }
    }

    /// Builds the lattice over `[0, size)` with every cell holding
    /// `default_state`, under the default (unbounded) boundary mode.
    pub fn from_size_with_default(size: UniversalLatticeSize<D>, default_state: S) -> (r: Self)
        requires
            product_of(size@) <= usize::MAX,
        ensures
            r.size_spec() == size,
            r.boundary_spec() == BoundaryHandling::Unbounded,
            r.default_state() == default_state,
            r.grid().len() == product_of(size@),
            forall|i: int| 0 <= i < r.grid().len() ==> #[trigger] r.grid()[i] == default_state,
    {
        let total = size_product(&size);
        let mut cells: Vec<S> = Vec::new();
        let mut i: usize = 0;
        while i < total
            invariant
                i <= total,
                cells@.len() == i,
                forall|j: int| 0 <= j < i ==> #[trigger] cells@[j] == default_state,
            decreases total - i,
        {
            cells.push(default_state);
            i += 1;
        }
        UniversalLattice {
            cells,
            size,
            boundary_handling: BoundaryHandling::Unbounded,
            fallback: default_state,
        }
    }
}

impl<const D: usize, S: Copy + Default> UniversalLattice<D, S> {
    /// The common constructor behind the explicit-states builders: the
    /// given states become the row-major grid.
    fn assemble(states: Vec<S>, size: UniversalLatticeSize<D>, default_state: S) -> (r: Self)
        requires
            states@.len() == product_of(size@),
        ensures
            r.size_spec() == size,
            r.boundary_spec() == BoundaryHandling::Unbounded,
            r.default_state() == default_state,
            r.grid() == states@,
            r.domain().len() == states@.len(),
            forall|i: int|
                0 <= i < states@.len() ==> r.state_of(#[trigger] r.domain()[i]) == states@[i],
    {
        let r = UniversalLattice {
            cells: states,
            size,
            boundary_handling: BoundaryHandling::Unbounded,
            fallback: default_state,
        };
        proof {
            assert forall|i: int| 0 <= i < r.domain().len() implies r.state_of(
                #[trigger] r.domain()[i],
            ) == r.grid()[i] by {
                r.lemma_domain_index(i);
            }
        }
        r
    }

    /// Builds a lattice over `[0, size)` whose cells hold `states` in
    /// row-major order, rejecting eagerly — and exactly — a sequence
    /// that does not hold one state per addressable cell.
    pub fn try_from_states(states: Vec<S>, size: UniversalLatticeSize<D>) -> (r: Result<
        Self,
        LatticeError,
    >)
        ensures
            states@.len() == product_of(size@) <==> r is Ok,
            r matches Ok(l) ==> {
                &&& l.size_spec() == size
                &&& l.boundary_spec() == BoundaryHandling::Unbounded
                &&& l.grid() == states@
                &&& l.domain().len() == states@.len()
                &&& forall|i: int|
                    0 <= i < states@.len() ==> l.state_of(#[trigger] l.domain()[i]) == states@[i]
            },
            r matches Err(e) ==> e == LatticeError::SizeMismatch,
    {
        let d = S::default();
        Self::try_from_states_with_default(states, size, d)
    }

    /// Like `try_from_states`, but with the state unmapped points read
    /// given explicitly, so the built lattice is pinned completely.
    pub fn try_from_states_with_default(
        states: Vec<S>,
        size: UniversalLatticeSize<D>,
        default_state: S,
    ) -> (r: Result<Self, LatticeError>)
        ensures
            states@.len() == product_of(size@) <==> r is Ok,
            r matches Ok(l) ==> {
                &&& l.size_spec() == size
                &&& l.boundary_spec() == BoundaryHandling::Unbounded
                &&& l.default_state() == default_state
                &&& l.grid() == states@
                &&& l.domain().len() == states@.len()
                &&& forall|i: int|
                    0 <= i < states@.len() ==> l.state_of(#[trigger] l.domain()[i]) == states@[i]
            },
            r matches Err(e) ==> e == LatticeError::SizeMismatch,
    {
        proof {
            vstd::std_specs::vec::axiom_spec_len(&states);
        }
        let expected = checked_size_product(&size);
        match expected {
            Some(n) => {
                if n == states.len() {
                    Ok(Self::assemble(states, size, default_state))
                } else {
                    Err(LatticeError::SizeMismatch)
                }
            },
            None => Err(LatticeError::SizeMismatch),
        }
    }

    /// Builds the lattice over `[0, size)` with every cell implicitly
    /// holding the state type's default value, under the default
    /// (unbounded) boundary mode.
    pub fn from_size(size: UniversalLatticeSize<D>) -> (r: Self)
        requires
            product_of(size@) <= usize::MAX,
        ensures
            r.size_spec() == size,
            r.boundary_spec() == BoundaryHandling::Unbounded,
            r.grid().len() == product_of(size@),
            forall|i: int|
                0 <= i < r.grid().len() ==> #[trigger] r.grid()[i] == r.default_state(),
    {
        let d = S::default();
        Self::from_size_with_default(size, d)
    }
}

impl<const D: usize, S: Copy + Default> Lattice for UniversalLattice<D, S> {
    type Point = UniversalLatticePoint<D>;

    type State = S;

    type Config = (UniversalLatticeSize<D>, BoundaryHandling);

    closed spec fn config(self) -> (UniversalLatticeSize<D>, BoundaryHandling) {
        (self.size, self.boundary_handling)
    }

    /// Every point of the box `[0, size)`, in row-major order with axis 0
    /// varying fastest.
    closed spec fn domain(self) -> Seq<UniversalLatticePoint<D>> {
        Seq::new(product_of(self.size@), |i: int| point_of_coords::<D>(point_at(i, self.size@)))
    }

    closed spec fn state_of(self, point: UniversalLatticePoint<D>) -> S {
        let t = self.resolved(point@);
        if in_box(t, self.size@) {
            self.cells@[flat_of(t, self.size@)]
        } else {
            self.fallback
        }
    }

    closed spec fn default_state(self) -> S {
        self.fallback
    }

    closed spec fn writable(self, point: UniversalLatticePoint<D>) -> bool {
        in_box(self.resolved(point@), self.size@)
    }

    closed spec fn same_cell(self, p: UniversalLatticePoint<D>, q: UniversalLatticePoint<D>) -> bool {
        self.resolved(p@) == self.resolved(q@)
    }

    proof fn lemma_domain_cells(&self)
    {
        assert forall|i: int| 0 <= i < self.domain().len() implies self.writable(
            #[trigger] self.domain()[i],
        ) && self.same_cell(self.domain()[i], self.domain()[i]) by {
            self.lemma_domain_index(i);
        }
        assert forall|i: int, j: int|
            0 <= i < self.domain().len() && 0 <= j < self.domain().len() && i != j implies !self
            .same_cell(#[trigger] self.domain()[i], #[trigger] self.domain()[j]) by {
            self.lemma_domain_index(i);
            self.lemma_domain_index(j);
        }
    }

    proof fn lemma_same_cell_state(&self, p: UniversalLatticePoint<D>, q: UniversalLatticePoint<D>)
    {
    }

    fn get_state(&self, point: &UniversalLatticePoint<D>) -> (s: S) {
        proof {
            use_type_invariant(&*self);
            vstd::std_specs::vec::axiom_spec_len(&self.cells);
        }
        let t = self.transform_point(point);
        proof {
            lemma_point_of_coords::<D>(self.resolved(point@));
        }
        if self.size.contains(&t) {
            let idx = flat_index_of(&t, &self.size);
            proof {
                lemma_flat_of_inverse(t@, self.size@);
            }
            *vstd::std_specs::vec::vec_index(&self.cells, idx)
        } else {
            self.fallback
        }
    }

    fn set_state(&mut self, point: &UniversalLatticePoint<D>, state: &S) {
        proof {
            use_type_invariant(&*self);
            vstd::std_specs::vec::axiom_spec_len(&self.cells);
        }
        let t = self.transform_point(point);
        proof {
            lemma_point_of_coords::<D>(self.resolved(point@));
        }
        if self.size.contains(&t) {
            let idx = flat_index_of(&t, &self.size);
            proof {
                lemma_flat_of_inverse(t@, self.size@);
            }
            self.cells[idx] = *state;
            proof {
                assert forall|q: UniversalLatticePoint<D>| #[trigger]
                    self.state_of(q) == (if old(self).writable(*point) && old(self).same_cell(
                        *point,
                        q,
                    ) {
                        *state
                    } else {
                        old(self).state_of(q)
                    }) by {
                    let tq = old(self).resolved(q@);
                    if in_box(tq, old(self).size@) {
                        lemma_flat_of_inverse(tq, old(self).size@);
                        lemma_flat_of_inverse(t@, old(self).size@);
                    }
                    assert(self.resolved(q@) == tq);
                }
            }
        }
    }

    fn points(&self) -> (r: Vec<UniversalLatticePoint<D>>) {
        proof {
            use_type_invariant(&*self);
            vstd::std_specs::vec::axiom_spec_len(&self.cells);
        }
        let r = generate_points_until(self.size);
        proof {
            assert forall|i: int| 0 <= i < r@.len() implies r@[i] == self.domain()[i] by {
                self.lemma_domain_index(i);
                lemma_point_view_injective(r@[i], self.domain()[i]);
            }
            assert(r@ =~= self.domain());
        }
        r
    }

    fn states(&self) -> (r: Vec<S>) {
        proof {
            use_type_invariant(&*self);
        }
        let n = self.cells.len();
        let mut r: Vec<S> = Vec::new();
        let mut i: usize = 0;
        while i < n
            invariant
                i <= n,
                n == self.cells@.len(),
                r@.len() == i,
                forall|j: int| 0 <= j < i ==> #[trigger] r@[j] == self.cells@[j],
            decreases n - i,
        {
            let s = *vstd::std_specs::vec::vec_index(&self.cells, i);
            r.push(s);
            i += 1;
        }
        proof {
            assert forall|j: int| 0 <= j < r@.len() implies r@[j] == self.state_of(
                #[trigger] self.domain()[j],
            ) by {
                self.lemma_domain_index(j);
            }
        }
        r
    }
}

impl<const D: usize, S: Copy + Default> BoundaryHandlingLattice for UniversalLattice<D, S> {
    type Size = UniversalLatticeSize<D>;

    closed spec fn size_spec(self) -> UniversalLatticeSize<D> {
        self.size
    }

    closed spec fn boundary_spec(self) -> BoundaryHandling {
        self.boundary_handling
    }

    closed spec fn transformed(self, point: UniversalLatticePoint<D>) -> UniversalLatticePoint<
        D,
    > {
        point_of_coords::<D>(self.resolved(point@))
    }

    open spec fn required_len(size: UniversalLatticeSize<D>) -> nat {
        product_of(size@)
    }

    open spec fn size_ok(size: UniversalLatticeSize<D>) -> bool {
        product_of(size@) <= usize::MAX
    }

    proof fn lemma_config_determines(&self, other: Self) {
    }

    fn from_states(states: Vec<S>, size: UniversalLatticeSize<D>) -> (r: Self) {
        let d = S::default();
        Self::assemble(states, size, d)
    }

    fn transform_point(&self, point: &UniversalLatticePoint<D>) -> (r: UniversalLatticePoint<
        D,
    >) {
        let mode = self.boundary_handling;
        match mode {
            BoundaryHandling::Unbounded => {
                proof {
                    assert(self.resolved(point@) =~= point@);
                    lemma_point_of_coords::<D>(self.resolved(point@));
                    lemma_point_view_injective(self.transformed(*point), *point);
                }
                *point
            },
            _ => {
                let coords = point.coords();
                let dims = self.size.sizes();
                let mut out: [i128; D] = [0; D];
                let mut i: usize = 0;
                while i < D
                    invariant
                        coords@ == point@,
                        dims@ == self.size@,
                        mode == self.boundary_handling,
                        !(mode is Unbounded),
                        i <= D,
                        out@.len() == D,
                        forall|j: int|
                            0 <= j < i ==> #[trigger] out@[j] == axis_transform(
                                mode,
                                point@[j],
                                self.size@[j],
                            ),
                    decreases D - i,
                {
                    let c = *vstd::array::array_index_get(&coords, i);
                    let n = *vstd::array::array_index_get(&dims, i);
                    let t = match mode {
                        BoundaryHandling::Wrap => wrap_coordinate(c, n),
                        _ => clamp_coordinate(c, n),
                    };
                    out[i] = t;
                    i += 1;
                }
                let r = UniversalPoint::new(out);
                proof {
                    assert(r@ =~= self.resolved(point@));
                    lemma_point_of_coords::<D>(self.resolved(point@));
                    lemma_point_view_injective(r, self.transformed(*point));
                }
                r
            },
        }
    }

    fn set_boundary_handling(&mut self, boundary_handling: BoundaryHandling) {
        proof {
            use_type_invariant(&*self);
        }
        let ghost pre = *self;
        self.boundary_handling = boundary_handling;
        proof {
            assert(self.domain() =~= pre.domain());
            assert forall|i: int| 0 <= i < pre.domain().len() implies self.state_of(
                #[trigger] pre.domain()[i],
            ) == pre.state_of(pre.domain()[i]) by {
                pre.lemma_domain_index(i);
                self.lemma_domain_index(i);
            }
        }
    }

    fn boundary_handling(&self) -> (r: BoundaryHandling) {
        self.boundary_handling
    }

    fn size(&self) -> (r: UniversalLatticeSize<D>) {
        self.size
    }

    fn set_size(&mut self, size: UniversalLatticeSize<D>) {
        proof {
            use_type_invariant(&*self);
            vstd::std_specs::vec::axiom_spec_len(&self.cells);
        }
        let ghost pre = *self;
        let total = size_product(&size);
        let mut cells: Vec<S> = Vec::new();
        let mut i: usize = 0;
        while i < total
            invariant
                pre.wf(),
                *self == pre,
                pre.grid().len() <= usize::MAX,
                i <= total,
                total == product_of(size@),
                cells@.len() == i,
                forall|j: int|
                    0 <= j < i ==> #[trigger] cells@[j] == (if in_box(point_at(j, size@), pre.size@) {
                        pre.grid()[flat_of(point_at(j, size@), pre.size@)]
                    } else {
                        pre.fallback
                    }),
            decreases total - i,
        {
            let p = point_from_flat_index(i, size);
            let value = if self.size.contains(&p) {
                let idx = flat_index_of(&p, &self.size);
                proof {
                    lemma_flat_of_inverse(p@, self.size@);
                }
                *vstd::std_specs::vec::vec_index(&self.cells, idx)
            } else {
                self.fallback
            };
            cells.push(value);
            i += 1;
        }
        *self = UniversalLattice {
            cells,
            size,
            boundary_handling: self.boundary_handling,
            fallback: self.fallback,
        };
        proof {
            assert forall|i: int| 0 <= i < self.domain().len() implies self.state_of(
                #[trigger] self.domain()[i],
            ) == (if pre.domain().contains(self.domain()[i]) {
                pre.state_of(self.domain()[i])
            } else {
                pre.default_state()
            }) by {
                self.lemma_domain_index(i);
                let p = self.domain()[i];
                pre.lemma_domain_contains(p);
                if in_box(p@, pre.size@) {
                    lemma_transform_in_box(pre.boundary_handling, p@, pre.size@);
                }
            }
        }
    }
}

} // verus!
