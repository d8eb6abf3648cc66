//! A two-dimensional automaton over boolean cells: a population-threshold
//! survival/birth rule evaluated on the Moore neighborhood.

use vstd::prelude::*;

use crate::moore::MooreNeighborhoodBuilder;
use crate::types::CellularAutomaton;
use crate::types::Neighborhood;
use crate::types::Rule;
use crate::universal_lattice::UniversalLattice;

verus! {

/// One cell of the game: dead or alive.
#[derive(Debug, Clone, Copy, PartialEq, Eq, PartialOrd, Ord, Structural)]
pub enum GameOfLifeState {
    Dead,
    Alive,
}

impl Default for GameOfLifeState {
    /// An unset cell is dead.
    fn default() -> (r: Self)
        ensures
            r == GameOfLifeState::Dead,
    {
        GameOfLifeState::Dead
    }
}

/// How many of the sampled states are alive.
pub open spec fn spec_count_alive(states: Seq<GameOfLifeState>) -> nat
    decreases states.len(),
{
    if states.len() == 0 {
        0
    } else {
        spec_count_alive(states.drop_last()) + (if states.last() is Alive {
            1nat
        } else {
            0nat
        })
    }
}

/// Counts the alive states of a neighborhood.
pub fn count_alive<N: Neighborhood<State = GameOfLifeState>>(neighborhood: &N) -> (c: usize)
    ensures
        c == spec_count_alive(neighborhood.states_view()),
{
    let states = neighborhood.iter_states();
    let n = states.len();
    let mut c: usize = 0;
    let mut i: usize = 0;
    while i < n
        invariant
            i <= n,
            n == states@.len(),
            states@ == neighborhood.states_view(),
            c <= i,
            c == spec_count_alive(states@.take(i as int)),
        decreases n - i,
    {
        let s = *vstd::std_specs::vec::vec_index(states, i);
        proof {
            assert(states@.take(i as int + 1).drop_last() =~= states@.take(i as int));
            assert(states@.take(i as int + 1).last() == states@[i as int]);
        }
        if s == GameOfLifeState::Alive {
            c += 1;
        }
        i += 1;
    }
    proof {
        assert(states@.take(n as int) =~= states@);
    }
    c
}

/// Counts the dead states of a neighborhood.
pub fn count_dead<N: Neighborhood<State = GameOfLifeState>>(neighborhood: &N) -> (c: usize)
    ensures
        c == neighborhood.states_view().len() - spec_count_alive(neighborhood.states_view()),
{
    let states = neighborhood.iter_states();
    let n = states.len();
    let mut c: usize = 0;
    let mut i: usize = 0;
    while i < n
        invariant
            i <= n,
            n == states@.len(),
            states@ == neighborhood.states_view(),
            c <= i,
            c == i - spec_count_alive(states@.take(i as int)),
        decreases n - i,
    {
        let s = *vstd::std_specs::vec::vec_index(states, i);
        proof {
            assert(states@.take(i as int + 1).drop_last() =~= states@.take(i as int));
            assert(states@.take(i as int + 1).last() == states@[i as int]);
            lemma_count_alive_bound(states@.take(i as int));
        }
        if s == GameOfLifeState::Dead {
            c += 1;
        }
        i += 1;
    }
    proof {
        assert(states@.take(n as int) =~= states@);
    }
    c
}

/// Never more states are alive than were sampled.
pub proof fn lemma_count_alive_bound(states: Seq<GameOfLifeState>)
    ensures
        spec_count_alive(states) <= states.len(),
    decreases states.len(),
{
    if states.len() > 0 {
        lemma_count_alive_bound(states.drop_last());
    }
}

/// The survival/birth rule: an alive cell survives when its alive
/// neighbors are neither below the underpopulation threshold nor above
/// the overpopulation threshold; a dead cell is born on exactly the
/// reproduction count.
#[derive(Debug, Clone)]
pub struct GameOfLifeRule {
    amount_to_underpopulation: u8,
    amount_to_overpopulation: u8,
    amount_to_reproduction: u8,
}

impl Default for GameOfLifeRule {
    /// The classic thresholds: die below 2 or above 3, born at exactly 3.
    fn default() -> (r: Self)
        ensures
            r == GameOfLifeRule::spec_new(2, 3, 3),
    {
        GameOfLifeRule {
            amount_to_underpopulation: 2,
            amount_to_overpopulation: 3,
            amount_to_reproduction: 3,
        }
    }
}

impl GameOfLifeRule {
    /// A rule with explicit thresholds.
    pub fn new(
        amount_to_underpopulation: u8,
        amount_to_overpopulation: u8,
        amount_to_reproduction: u8,
    ) -> (r: Self)
        ensures
            r == Self::spec_new(
                amount_to_underpopulation,
                amount_to_overpopulation,
                amount_to_reproduction,
            ),
    {
        GameOfLifeRule {
            amount_to_underpopulation,
            amount_to_overpopulation,
            amount_to_reproduction,
        }
    }

    /// The count below which an alive cell starves.
    pub closed spec fn underpopulation_spec(self) -> u8 {
        self.amount_to_underpopulation
    }

    /// The count above which an alive cell is crowded out.
    pub closed spec fn overpopulation_spec(self) -> u8 {
        self.amount_to_overpopulation
    }

    /// The exact count at which a dead cell is born.
    pub closed spec fn reproduction_spec(self) -> u8 {
        self.amount_to_reproduction
    }

    /// The rule value `new` returns.
    pub closed spec fn spec_new(
        amount_to_underpopulation: u8,
        amount_to_overpopulation: u8,
        amount_to_reproduction: u8,
    ) -> Self {
        GameOfLifeRule {
            amount_to_underpopulation,
            amount_to_overpopulation,
            amount_to_reproduction,
        }
    }
}

/// A rule built from three thresholds carries exactly those thresholds.
pub broadcast proof fn lemma_spec_new_thresholds(under: u8, over: u8, birth: u8)
    ensures
        (#[trigger] GameOfLifeRule::spec_new(under, over, birth)).underpopulation_spec() == under,
        GameOfLifeRule::spec_new(under, over, birth).overpopulation_spec() == over,
        GameOfLifeRule::spec_new(under, over, birth).reproduction_spec() == birth,
{
}

/// What the rule computes, written out over its thresholds: an alive cell
/// survives exactly inside the population window, a dead cell is born on
/// exactly the reproduction count.
pub proof fn lemma_threshold_rule_semantics(
    rule: GameOfLifeRule,
    current: GameOfLifeState,
    neighbors: Seq<GameOfLifeState>,
)
    ensures
        rule.next_state(current, neighbors) == (if current is Alive {
            if spec_count_alive(neighbors) < rule.underpopulation_spec() || spec_count_alive(
                neighbors,
            ) > rule.overpopulation_spec() {
                GameOfLifeState::Dead
            } else {
                GameOfLifeState::Alive
            }
        } else {
            if spec_count_alive(neighbors) == rule.reproduction_spec() {
                GameOfLifeState::Alive
            } else {
                GameOfLifeState::Dead
            }
        }),
{
}

impl Rule for GameOfLifeRule {
    type State = GameOfLifeState;

    /// Alive cells survive inside the population window; dead cells are
    /// born on exactly the reproduction count.
    closed spec fn next_state(
        self,
        current: GameOfLifeState,
        neighbors: Seq<GameOfLifeState>,
    ) -> GameOfLifeState {
        let alive = spec_count_alive(neighbors);
        if current is Alive {
            if alive < self.amount_to_underpopulation || alive > self.amount_to_overpopulation {
                GameOfLifeState::Dead
            } else {
                GameOfLifeState::Alive
            }
        } else {
            if alive == self.amount_to_reproduction {
                GameOfLifeState::Alive
            } else {
                GameOfLifeState::Dead
            }
        }
    }

    fn apply<N: Neighborhood<State = GameOfLifeState>>(
        &self,
        current_state: &GameOfLifeState,
        neighbors: &N,
    ) -> (r: GameOfLifeState) {
        let alive_count = count_alive(neighbors);
        let is_alive = *current_state == GameOfLifeState::Alive;

        if is_alive {
            if alive_count < self.amount_to_underpopulation as usize {
                return GameOfLifeState::Dead;
            }
            if alive_count > self.amount_to_overpopulation as usize {
                return GameOfLifeState::Dead;
            }
            GameOfLifeState::Alive
        } else {
            if alive_count == self.amount_to_reproduction as usize {
                return GameOfLifeState::Alive;
            }
            GameOfLifeState::Dead
        }
    }
}

/// The threshold rule run on the Moore neighborhood of a 2D lattice.
#[derive(Debug, Clone)]
pub struct GameOfLifeAutomaton {
    rule: GameOfLifeRule,
}

impl GameOfLifeAutomaton {
    /// An automaton driving the given rule.
    pub fn new(rule: GameOfLifeRule) -> (r: Self)
        ensures
            r.rule_spec() == rule,
    {
        GameOfLifeAutomaton { rule }
    }
}

impl CellularAutomaton for GameOfLifeAutomaton {
    type Lattice = UniversalLattice<2, GameOfLifeState>;

    type Rule = GameOfLifeRule;

    type NeighborhoodBuilder = MooreNeighborhoodBuilder;

    closed spec fn rule_spec(self) -> GameOfLifeRule {
        self.rule
    }

    open spec fn builder_spec(self) -> MooreNeighborhoodBuilder {
        MooreNeighborhoodBuilder
    }

    fn rule(&self) -> (r: &GameOfLifeRule) {
        &self.rule
    }

    fn neighborhood_builder(&self) -> (b: MooreNeighborhoodBuilder) {
        MooreNeighborhoodBuilder
    }
}

} // verus!
