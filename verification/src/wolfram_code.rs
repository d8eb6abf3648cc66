//! A one-dimensional elementary automaton: a table-driven rule built once
//! from an 8-bit configuration code, evaluated on the two nearest
//! neighbors.

use vstd::prelude::*;

use crate::nearest::NearestNeighborhoodBuilder1;
use crate::types::CellularAutomaton;
use crate::types::Neighborhood;
use crate::types::Rule;
use crate::universal_lattice::UniversalLattice;

verus! {

/// One cell of the automaton: dead or alive.
#[derive(Debug, Clone, Copy, PartialEq, Eq, Structural)]
pub enum WolframCodeState {
    Dead,
    Alive,
}

impl Default for WolframCodeState {
    /// An unset cell is dead.
    fn default() -> (r: Self)
        ensures
            r == WolframCodeState::Dead,
    {
        WolframCodeState::Dead
    }
}

/// Bit `i` of an 8-bit configuration code: the next state of the triple
/// whose (left, middle, right) aliveness spells `i` in binary.
pub open spec fn code_bit(code: u8, i: u8) -> bool {
    (code >> i) & 1 == 1
}

/// The table index a (left, middle, right) triple selects.
pub open spec fn triple_index(left: bool, middle: bool, right: bool) -> int {
    (if left {
        4int
    } else {
        0int
    }) + (if middle {
        2int
    } else {
        0int
    }) + (if right {
        1int
    } else {
        0int
    })
}

/// The table-driven rule: every (left, middle, right) boolean triple maps
/// to the next state bit the configuration code assigns it.
#[derive(Debug, Clone)]
pub struct WolframCodeRule {
    transform_table: [bool; 8],
}

impl WolframCodeRule {
    /// Whether the code maps a (left, middle, right) triple to alive.
    pub closed spec fn table_at(self, idx: int) -> bool {
        self.transform_table@[idx]
    }

    /// Builds the 8-entry transition table of a configuration code.
    pub fn new(rule: u8) -> (r: Self)
        ensures
            forall|i: u8| 0 <= i < 8 ==> r.table_at(i as int) == code_bit(rule, i),
    {
        let mut table: [bool; 8] = [false; 8];
        let mut i: u8 = 0;
        while i < 8
            invariant
                i <= 8,
                table@.len() == 8,
                forall|j: u8| 0 <= j < i ==> #[trigger] table@[j as int] == code_bit(rule, j),
            decreases 8 - i,
        {
            let result_bit = (rule >> i) & 1 != 0;
            table[i as usize] = result_bit;
            proof {
                assert(((rule >> i) & 1 != 0) == ((rule >> i) & 1 == 1)) by (bit_vector);
            }
            i += 1;
        }
        WolframCodeRule { transform_table: table }
    }
}

/// What the rule computes, written out over its table: the first two
/// sampled neighbors and the current cell select one table entry, and a
/// missing sample reads as dead.
pub proof fn lemma_table_rule_semantics(
    rule: WolframCodeRule,
    current: WolframCodeState,
    neighbors: Seq<WolframCodeState>,
)
    ensures
        rule.next_state(current, neighbors) == (if rule.table_at(
            triple_index(
                neighbors.len() >= 1 && neighbors[0] is Alive,
                current is Alive,
                neighbors.len() >= 2 && neighbors[1] is Alive,
            ),
        ) {
            WolframCodeState::Alive
        } else {
            WolframCodeState::Dead
        }),
{
}

impl Rule for WolframCodeRule {
    type State = WolframCodeState;

    /// The first two sampled neighbors are the left and right cells; a
    /// missing sample reads as dead. The triple selects one table entry.
    closed spec fn next_state(
        self,
        current: WolframCodeState,
        neighbors: Seq<WolframCodeState>,
    ) -> WolframCodeState {
        let left = neighbors.len() >= 1 && neighbors[0] is Alive;
        let right = neighbors.len() >= 2 && neighbors[1] is Alive;
        if self.table_at(triple_index(left, current is Alive, right)) {
            WolframCodeState::Alive
        } else {
            WolframCodeState::Dead
        }
    }

    fn apply<N: Neighborhood<State = WolframCodeState>>(
        &self,
        current_state: &WolframCodeState,
        neighbors: &N,
    ) -> (r: WolframCodeState) {
        let states = neighbors.iter_states();
        let left = if states.len() >= 1 {
            *vstd::std_specs::vec::vec_index(states, 0) == WolframCodeState::Alive
        } else {
            false
        };
        let right = if states.len() >= 2 {
            *vstd::std_specs::vec::vec_index(states, 1) == WolframCodeState::Alive
        } else {
            false
        };
        let middle = *current_state == WolframCodeState::Alive;

        let idx: usize = (if left {
            4
        } else {
            0
        }) + (if middle {
            2
        } else {
            0
        }) + (if right {
            1
        } else {
            0
        });
        let new_state = *vstd::array::array_index_get(&self.transform_table, idx);
        if new_state {
            WolframCodeState::Alive
        } else {
            WolframCodeState::Dead
        }
    }
}

/// The table rule run on the two nearest neighbors of a 1D lattice.
#[derive(Debug, Clone)]
pub struct WolframCodeAutomaton {
    rule: WolframCodeRule,
}

impl WolframCodeAutomaton {
    /// An automaton driving the given rule.
    pub fn new(rule: WolframCodeRule) -> (r: Self)
        ensures
            r.rule_spec() == rule,
    {
        WolframCodeAutomaton { rule }
    }
}

impl CellularAutomaton for WolframCodeAutomaton {
    type Lattice = UniversalLattice<1, WolframCodeState>;

    type Rule = WolframCodeRule;

    type NeighborhoodBuilder = NearestNeighborhoodBuilder1;

    closed spec fn rule_spec(self) -> WolframCodeRule {
        self.rule
    }

    /// The immediate neighbors on each side: radius 1.
    open spec fn builder_spec(self) -> NearestNeighborhoodBuilder1 {
        NearestNeighborhoodBuilder1::spec_new(1)
    }

    fn rule(&self) -> (r: &WolframCodeRule) {
        &self.rule
    }

    fn neighborhood_builder(&self) -> (b: NearestNeighborhoodBuilder1) {
        NearestNeighborhoodBuilder1::new(1)
    }
}

} // verus!
