use lattice_toolkit::game_of_life::GameOfLifeState;
use lattice_toolkit::types::BoundaryHandling;
use lattice_toolkit::types::BoundaryHandlingLattice;
use lattice_toolkit::types::Lattice;
use lattice_toolkit::universal_lattice::LatticeError;
use lattice_toolkit::universal_lattice::UniversalLattice;
use lattice_toolkit::universal_point::UniversalLatticePoint;
use lattice_toolkit::universal_point::UniversalLatticeSize;
use lattice_toolkit::universal_point::UniversalPoint;

type Cell = GameOfLifeState;

fn point2(x: i128, y: i128) -> UniversalLatticePoint<2> {
    UniversalPoint::new([x, y])
}

fn size2(w: usize, h: usize) -> UniversalLatticeSize<2> {
    UniversalPoint::new([w, h])
}

#[test]
fn fresh_lattice_reads_default_everywhere() {
    let lattice: UniversalLattice<2, Cell> = UniversalLattice::from_size(size2(3, 3));
    for point in lattice.points() {
        assert_eq!(lattice.get_state(&point), Cell::Dead);
    }
    assert_eq!(lattice.get_state(&point2(99, -42)), Cell::Dead);
}

#[test]
fn set_state_then_get_state_round_trips() {
    let mut lattice: UniversalLattice<2, Cell> = UniversalLattice::from_size(size2(3, 3));
    lattice.set_state(&point2(1, 2), &Cell::Alive);
    assert_eq!(lattice.get_state(&point2(1, 2)), Cell::Alive);
    assert_eq!(lattice.get_state(&point2(2, 1)), Cell::Dead);
    lattice.set_state(&point2(1, 2), &Cell::Dead);
    assert_eq!(lattice.get_state(&point2(1, 2)), Cell::Dead);
}

#[test]
fn unbounded_out_of_range_write_is_dropped() {
    let mut lattice: UniversalLattice<2, Cell> = UniversalLattice::from_size(size2(3, 3));
    lattice.set_state(&point2(-1, 0), &Cell::Alive);
    lattice.set_state(&point2(3, 0), &Cell::Alive);
    for point in lattice.points() {
        assert_eq!(lattice.get_state(&point), Cell::Dead);
    }
    assert_eq!(lattice.get_state(&point2(-1, 0)), Cell::Dead);
}

#[test]
fn transform_point_leaves_in_range_points_unchanged_in_every_mode() {
    for mode in [BoundaryHandling::Unbounded, BoundaryHandling::Wrap, BoundaryHandling::Clamp] {
        let mut lattice: UniversalLattice<2, Cell> = UniversalLattice::from_size(size2(5, 5));
        lattice.set_boundary_handling(mode);
        for point in lattice.points() {
            assert_eq!(lattice.transform_point(&point).coords(), point.coords());
        }
    }
}

#[test]
fn wrap_transform_is_a_torus() {
    let mut lattice: UniversalLattice<2, Cell> = UniversalLattice::from_size(size2(5, 4));
    lattice.set_boundary_handling(BoundaryHandling::Wrap);
    assert_eq!(lattice.transform_point(&point2(-1, 0)).coords(), [4, 0]);
    assert_eq!(lattice.transform_point(&point2(0, -1)).coords(), [0, 3]);
    assert_eq!(lattice.transform_point(&point2(5, 4)).coords(), [0, 0]);
    assert_eq!(lattice.transform_point(&point2(-6, 9)).coords(), [4, 1]);
}

#[test]
fn wrap_mode_reads_minus_one_as_extent_minus_one() {
    let mut lattice: UniversalLattice<2, Cell> = UniversalLattice::from_size(size2(5, 4));
    lattice.set_boundary_handling(BoundaryHandling::Wrap);
    lattice.set_state(&point2(4, 2), &Cell::Alive);
    assert_eq!(lattice.get_state(&point2(-1, 2)), Cell::Alive);
    lattice.set_state(&point2(1, 3), &Cell::Alive);
    assert_eq!(lattice.get_state(&point2(1, -1)), Cell::Alive);
}

#[test]
fn clamp_transform_is_idempotent() {
    let mut lattice: UniversalLattice<2, Cell> = UniversalLattice::from_size(size2(5, 5));
    lattice.set_boundary_handling(BoundaryHandling::Clamp);
    let once = lattice.transform_point(&point2(-10, 99));
    assert_eq!(once.coords(), [0, 4]);
    let twice = lattice.transform_point(&once);
    assert_eq!(twice.coords(), once.coords());
}

#[test]
fn clamp_mode_pins_reads_and_writes() {
    let mut lattice: UniversalLattice<2, Cell> = UniversalLattice::from_size(size2(3, 3));
    lattice.set_boundary_handling(BoundaryHandling::Clamp);
    lattice.set_state(&point2(-7, 10), &Cell::Alive);
    assert_eq!(lattice.get_state(&point2(0, 2)), Cell::Alive);
}

#[test]
fn from_states_lays_cells_out_in_row_major_order() {
    let states = vec![
        Cell::Alive,
        Cell::Dead,
        Cell::Dead,
        Cell::Alive,
        Cell::Dead,
        Cell::Alive,
    ];
    let lattice: UniversalLattice<2, Cell> = UniversalLattice::from_states(states, size2(2, 3));
    assert_eq!(lattice.get_state(&point2(0, 0)), Cell::Alive);
    assert_eq!(lattice.get_state(&point2(1, 0)), Cell::Dead);
    assert_eq!(lattice.get_state(&point2(0, 1)), Cell::Dead);
    assert_eq!(lattice.get_state(&point2(1, 1)), Cell::Alive);
    assert_eq!(lattice.get_state(&point2(0, 2)), Cell::Dead);
    assert_eq!(lattice.get_state(&point2(1, 2)), Cell::Alive);
    assert_eq!(lattice.boundary_handling(), BoundaryHandling::Unbounded);
}

#[test]
fn try_from_states_accepts_exactly_one_state_per_cell() {
    let lattice: UniversalLattice<2, Cell> =
        UniversalLattice::try_from_states(vec![Cell::Dead; 4], size2(2, 2)).unwrap();
    assert_eq!(lattice.points().len(), 4);
}

#[test]
fn try_from_states_with_default_pins_the_fallback_state() {
    let lattice: UniversalLattice<2, Cell> =
        UniversalLattice::try_from_states_with_default(vec![Cell::Dead; 4], size2(2, 2), Cell::Alive)
            .unwrap();
    // an unbounded out-of-range read yields the given default
    assert_eq!(lattice.get_state(&point2(-1, 0)), Cell::Alive);
    assert_eq!(lattice.get_state(&point2(0, 0)), Cell::Dead);
}

#[test]
fn cell_count_is_the_product_of_the_extents() {
    let lattice: UniversalLattice<2, Cell> = UniversalLattice::from_size(size2(3, 4));
    assert_eq!(lattice.cell_count(), 12);
    let empty: UniversalLattice<2, Cell> = UniversalLattice::from_size(size2(0, 9));
    assert_eq!(empty.cell_count(), 0);
}

#[test]
fn try_from_states_rejects_a_wrong_length() {
    let too_few: Result<UniversalLattice<2, Cell>, _> =
        UniversalLattice::try_from_states(vec![Cell::Dead; 3], size2(2, 2));
    assert_eq!(too_few.unwrap_err(), LatticeError::SizeMismatch);
    let too_many: Result<UniversalLattice<2, Cell>, _> =
        UniversalLattice::try_from_states(vec![Cell::Dead; 5], size2(2, 2));
    assert_eq!(too_many.unwrap_err(), LatticeError::SizeMismatch);
}

#[test]
fn try_from_states_rejects_a_box_beyond_the_address_space() {
    let huge: Result<UniversalLattice<2, Cell>, _> =
        UniversalLattice::try_from_states(vec![Cell::Dead; 4], size2(usize::MAX, 2));
    assert_eq!(huge.unwrap_err(), LatticeError::SizeMismatch);
}

#[test]
fn states_in_point_order_round_trips_through_from_states() {
    let mut lattice: UniversalLattice<2, Cell> = UniversalLattice::from_size(size2(3, 2));
    lattice.set_state(&point2(0, 0), &Cell::Alive);
    lattice.set_state(&point2(2, 1), &Cell::Alive);

    let rebuilt: UniversalLattice<2, Cell> =
        UniversalLattice::from_states(lattice.states(), lattice.size());

    assert_eq!(rebuilt.size().sizes(), lattice.size().sizes());
    let points = lattice.points();
    let rebuilt_points = rebuilt.points();
    assert_eq!(points.len(), rebuilt_points.len());
    for point in points {
        assert_eq!(rebuilt.get_state(&point), lattice.get_state(&point));
    }
}

#[test]
fn set_size_keeps_surviving_cells_and_evicts_the_rest() {
    let mut lattice: UniversalLattice<2, Cell> = UniversalLattice::from_size(size2(3, 3));
    lattice.set_state(&point2(0, 0), &Cell::Alive);
    lattice.set_state(&point2(2, 2), &Cell::Alive);

    lattice.set_size(size2(2, 2));
    assert_eq!(lattice.size().sizes(), [2, 2]);
    assert_eq!(lattice.get_state(&point2(0, 0)), Cell::Alive);
    assert_eq!(lattice.get_state(&point2(1, 1)), Cell::Dead);
    // the cell at (2, 2) was evicted: growing again reads the default
    lattice.set_size(size2(3, 3));
    assert_eq!(lattice.get_state(&point2(2, 2)), Cell::Dead);
    assert_eq!(lattice.get_state(&point2(0, 0)), Cell::Alive);
}

#[test]
fn points_enumerates_the_whole_domain_once() {
    let lattice: UniversalLattice<2, Cell> = UniversalLattice::from_size(size2(2, 2));
    let points = lattice.points();
    let coords: Vec<[i128; 2]> = points.iter().map(|p| p.coords()).collect();
    assert_eq!(coords, vec![[0, 0], [1, 0], [0, 1], [1, 1]]);
}

#[test]
fn three_dimensional_lattice_wraps_and_enumerates_in_row_major_order() {
    let size: UniversalLatticeSize<3> = UniversalPoint::new([2, 2, 2]);
    let mut lattice: UniversalLattice<3, Cell> = UniversalLattice::from_size(size);
    lattice.set_boundary_handling(BoundaryHandling::Wrap);

    let coords: Vec<[i128; 3]> = lattice.points().iter().map(|p| p.coords()).collect();
    assert_eq!(
        coords,
        vec![
            [0, 0, 0],
            [1, 0, 0],
            [0, 1, 0],
            [1, 1, 0],
            [0, 0, 1],
            [1, 0, 1],
            [0, 1, 1],
            [1, 1, 1],
        ]
    );

    lattice.set_state(&UniversalPoint::new([1, 0, 1]), &Cell::Alive);
    assert_eq!(lattice.get_state(&UniversalPoint::new([1, 0, 1])), Cell::Alive);
    assert_eq!(lattice.get_state(&UniversalPoint::new([-1, 2, -1])), Cell::Alive);
    assert_eq!(lattice.get_state(&UniversalPoint::new([1, 1, 1])), Cell::Dead);
}

#[test]
fn zero_axis_lattice_has_no_points() {
    let lattice: UniversalLattice<2, Cell> = UniversalLattice::from_size(size2(0, 7));
    assert!(lattice.points().is_empty());
    assert!(lattice.states().is_empty());
    let one_d: UniversalLattice<1, Cell> = UniversalLattice::from_size(UniversalPoint::new([0]));
    assert!(one_d.points().is_empty());
}
