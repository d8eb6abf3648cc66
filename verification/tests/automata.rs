use lattice_toolkit::game_of_life::count_alive;
use lattice_toolkit::game_of_life::count_dead;
use lattice_toolkit::game_of_life::GameOfLifeAutomaton;
use lattice_toolkit::game_of_life::GameOfLifeRule;
use lattice_toolkit::game_of_life::GameOfLifeState;
use lattice_toolkit::moore::MooreNeighborhoodBuilder;
use lattice_toolkit::nearest::NearestNeighborhoodBuilder1;
use lattice_toolkit::types::BoundaryHandling;
use lattice_toolkit::types::BoundaryHandlingLattice;
use lattice_toolkit::types::CellularAutomaton;
use lattice_toolkit::types::Lattice;
use lattice_toolkit::types::Neighborhood;
use lattice_toolkit::types::NeighborhoodBuilder;
use lattice_toolkit::types::Rule;
use lattice_toolkit::universal_lattice::UniversalLattice;
use lattice_toolkit::universal_point::UniversalLatticePoint;
use lattice_toolkit::universal_point::UniversalPoint;
use lattice_toolkit::wolfram_code::WolframCodeAutomaton;
use lattice_toolkit::wolfram_code::WolframCodeRule;
use lattice_toolkit::wolfram_code::WolframCodeState;

fn point2(x: i128, y: i128) -> UniversalLatticePoint<2> {
    UniversalPoint::new([x, y])
}

fn life_lattice(
    width: usize,
    height: usize,
    alive: &[(i128, i128)],
    mode: BoundaryHandling,
) -> UniversalLattice<2, GameOfLifeState> {
    let mut lattice = UniversalLattice::from_size(UniversalPoint::new([width, height]));
    lattice.set_boundary_handling(mode);
    for &(x, y) in alive {
        lattice.set_state(&point2(x, y), &GameOfLifeState::Alive);
    }
    lattice
}

fn alive_cells(lattice: &UniversalLattice<2, GameOfLifeState>) -> Vec<(i128, i128)> {
    lattice
        .points()
        .iter()
        .filter(|p| lattice.get_state(p) == GameOfLifeState::Alive)
        .map(|p| {
            let c = p.coords();
            (c[0], c[1])
        })
        .collect()
}

#[test]
fn moore_neighborhood_samples_eight_cells_in_fixed_order() {
    let states = vec![
        GameOfLifeState::Alive,
        GameOfLifeState::Dead,
        GameOfLifeState::Alive,
        GameOfLifeState::Dead,
        GameOfLifeState::Dead,
        GameOfLifeState::Dead,
        GameOfLifeState::Dead,
        GameOfLifeState::Alive,
        GameOfLifeState::Dead,
    ];
    let lattice: UniversalLattice<2, GameOfLifeState> =
        UniversalLattice::from_states(states, UniversalPoint::new([3, 3]));
    let neighborhood = MooreNeighborhoodBuilder.build_neighborhood(&point2(1, 1), &lattice);
    let sampled = neighborhood.iter_states();
    // offsets (-1,-1),(0,-1),(1,-1),(-1,0),(1,0),(-1,1),(0,1),(1,1)
    let expected = vec![
        GameOfLifeState::Alive,
        GameOfLifeState::Dead,
        GameOfLifeState::Alive,
        GameOfLifeState::Dead,
        GameOfLifeState::Dead,
        GameOfLifeState::Dead,
        GameOfLifeState::Alive,
        GameOfLifeState::Dead,
    ];
    assert_eq!(sampled, &expected);
}

#[test]
fn nearest_neighborhood_samples_in_increasing_offset_order() {
    let states = vec![
        WolframCodeState::Alive,
        WolframCodeState::Dead,
        WolframCodeState::Dead,
        WolframCodeState::Alive,
        WolframCodeState::Dead,
    ];
    let lattice: UniversalLattice<1, WolframCodeState> =
        UniversalLattice::from_states(states, UniversalPoint::new([5]));
    let builder = NearestNeighborhoodBuilder1::new(2);
    let neighborhood = builder.build_neighborhood(&UniversalPoint::new([2]), &lattice);
    let sampled: Vec<bool> = neighborhood
        .iter_states()
        .iter()
        .map(|s| matches!(s, WolframCodeState::Alive))
        .collect();
    // offsets -2, -1, 1, 2 around x = 2
    assert_eq!(sampled, vec![true, false, true, false]);
}

#[test]
fn count_alive_and_count_dead_partition_the_neighborhood() {
    let lattice = life_lattice(3, 3, &[(0, 0), (2, 0), (1, 2)], BoundaryHandling::Unbounded);
    let neighborhood = MooreNeighborhoodBuilder.build_neighborhood(&point2(1, 1), &lattice);
    assert_eq!(count_alive(&neighborhood), 3);
    assert_eq!(count_dead(&neighborhood), 5);
}

#[test]
fn threshold_rule_follows_its_thresholds_exactly() {
    let rule = GameOfLifeRule::new(2, 3, 3);
    let lattice = life_lattice(3, 3, &[(0, 0)], BoundaryHandling::Unbounded);
    let one_alive = MooreNeighborhoodBuilder.build_neighborhood(&point2(1, 1), &lattice);
    // an alive cell with one neighbor dies of underpopulation
    assert_eq!(
        rule.apply(&GameOfLifeState::Alive, &one_alive),
        GameOfLifeState::Dead
    );
    // a dead cell with one neighbor stays dead
    assert_eq!(
        rule.apply(&GameOfLifeState::Dead, &one_alive),
        GameOfLifeState::Dead
    );

    let lattice = life_lattice(3, 3, &[(0, 0), (1, 0), (2, 0)], BoundaryHandling::Unbounded);
    let three_alive = MooreNeighborhoodBuilder.build_neighborhood(&point2(1, 1), &lattice);
    // three neighbors: survival and birth
    assert_eq!(
        rule.apply(&GameOfLifeState::Alive, &three_alive),
        GameOfLifeState::Alive
    );
    assert_eq!(
        rule.apply(&GameOfLifeState::Dead, &three_alive),
        GameOfLifeState::Alive
    );

    let lattice = life_lattice(
        3,
        3,
        &[(0, 0), (1, 0), (2, 0), (0, 1)],
        BoundaryHandling::Unbounded,
    );
    let four_alive = MooreNeighborhoodBuilder.build_neighborhood(&point2(1, 1), &lattice);
    // four neighbors: death by overpopulation, no birth
    assert_eq!(
        rule.apply(&GameOfLifeState::Alive, &four_alive),
        GameOfLifeState::Dead
    );
    assert_eq!(
        rule.apply(&GameOfLifeState::Dead, &four_alive),
        GameOfLifeState::Dead
    );
}

#[test]
fn blinker_oscillates_with_period_two() {
    let automaton = GameOfLifeAutomaton::new(GameOfLifeRule::new(2, 3, 3));
    let mut lattice = life_lattice(5, 5, &[(1, 2), (2, 2), (3, 2)], BoundaryHandling::Wrap);

    automaton.step(&mut lattice);
    let mut after_one = alive_cells(&lattice);
    after_one.sort();
    assert_eq!(after_one, vec![(2, 1), (2, 2), (2, 3)]);

    automaton.step(&mut lattice);
    let mut after_two = alive_cells(&lattice);
    after_two.sort();
    assert_eq!(after_two, vec![(1, 2), (2, 2), (3, 2)]);
}

#[test]
fn step_matches_a_manual_two_phase_update_in_reverse_order() {
    let automaton = GameOfLifeAutomaton::new(GameOfLifeRule::default());
    let seed = &[(0, 0), (1, 0), (2, 1), (1, 2), (0, 2)];

    let mut stepped = life_lattice(4, 4, seed, BoundaryHandling::Wrap);
    automaton.step(&mut stepped);

    // the same update computed by hand, enumerating the points backwards:
    // first every next state against the untouched lattice, then the commit
    let mut manual = life_lattice(4, 4, seed, BoundaryHandling::Wrap);
    let rule = automaton.rule().clone();
    let builder = automaton.neighborhood_builder();
    let mut points = manual.points();
    points.reverse();
    let mut next_states = Vec::new();
    for point in &points {
        let neighborhood = builder.build_neighborhood(point, &manual);
        let current = manual.get_state(point);
        next_states.push(rule.apply(&current, &neighborhood));
    }
    for (point, state) in points.iter().zip(next_states.iter()) {
        manual.set_state(point, state);
    }

    for point in manual.points() {
        assert_eq!(manual.get_state(&point), stepped.get_state(&point));
    }
}

#[test]
fn wolfram_rule_table_matches_the_code_bits() {
    // rule 90: the next state is the exclusive-or of the two neighbors
    let rule = WolframCodeRule::new(90);
    let lattice: UniversalLattice<1, WolframCodeState> = UniversalLattice::from_states(
        vec![
            WolframCodeState::Alive,
            WolframCodeState::Dead,
            WolframCodeState::Dead,
        ],
        UniversalPoint::new([3]),
    );
    let builder = NearestNeighborhoodBuilder1::new(1);
    let neighborhood = builder.build_neighborhood(&UniversalPoint::new([1]), &lattice);
    // left alive, right dead: bit 4 of 90 is 1 when the middle is dead
    assert_eq!(
        rule.apply(&WolframCodeState::Dead, &neighborhood),
        WolframCodeState::Alive
    );
    // bit 6 of 90 (left and middle alive, right dead) is 1
    assert_eq!(
        rule.apply(&WolframCodeState::Alive, &neighborhood),
        WolframCodeState::Alive
    );
}

#[test]
fn rule_90_grows_a_sierpinski_triangle() {
    let automaton = WolframCodeAutomaton::new(WolframCodeRule::new(90));
    let mut lattice: UniversalLattice<1, WolframCodeState> =
        UniversalLattice::from_states(vec![WolframCodeState::Dead; 9], UniversalPoint::new([9]));
    lattice.set_state(&UniversalPoint::new([4]), &WolframCodeState::Alive);

    automaton.step(&mut lattice);
    let alive: Vec<i128> = alive_indices(&lattice);
    assert_eq!(alive, vec![3, 5]);

    // code 90 turns a cell off when both neighbors are alive (the table
    // entry for the 101 triple is 0), so the center cell stays dead
    automaton.step(&mut lattice);
    let alive: Vec<i128> = alive_indices(&lattice);
    assert_eq!(alive, vec![2, 6]);

    automaton.step(&mut lattice);
    let alive: Vec<i128> = alive_indices(&lattice);
    assert_eq!(alive, vec![1, 3, 5, 7]);
}

fn alive_indices(lattice: &UniversalLattice<1, WolframCodeState>) -> Vec<i128> {
    lattice
        .points()
        .iter()
        .filter(|p| matches!(lattice.get_state(p), WolframCodeState::Alive))
        .map(|p| p.coords()[0])
        .collect()
}

#[test]
fn step_on_an_empty_lattice_is_a_no_op() {
    let automaton = GameOfLifeAutomaton::new(GameOfLifeRule::default());
    let mut lattice: UniversalLattice<2, GameOfLifeState> =
        UniversalLattice::from_size(UniversalPoint::new([0, 5]));
    assert!(lattice.points().is_empty());
    automaton.step(&mut lattice);
    assert!(lattice.points().is_empty());
    assert_eq!(lattice.get_state(&point2(0, 0)), GameOfLifeState::Dead);
    assert_eq!(lattice.size().sizes(), [0, 5]);
}

#[test]
fn default_rule_uses_the_classic_thresholds() {
    let automaton = GameOfLifeAutomaton::new(GameOfLifeRule::default());
    // a block of four alive cells is a still life under 2/3/3
    let mut lattice = life_lattice(4, 4, &[(1, 1), (2, 1), (1, 2), (2, 2)], BoundaryHandling::Wrap);
    automaton.step(&mut lattice);
    let mut alive = alive_cells(&lattice);
    alive.sort();
    assert_eq!(alive, vec![(1, 1), (1, 2), (2, 1), (2, 2)]);
}
