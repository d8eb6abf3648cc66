//! A verified engine for synchronous cellular automata on N-dimensional
//! integer lattices.
//!
//! The crate models cells addressed by signed integer coordinates, resolves
//! out-of-range coordinates under three boundary-handling modes (unbounded,
//! clamp, toroidal wrap), samples neighborhoods through pluggable builders,
//! and advances a whole grid one generation at a time with a strict
//! two-phase (read-then-commit) update.

pub mod game_of_life;
pub mod lattice3;
pub mod laws;
pub mod moore;
pub mod nearest;
pub mod point;
pub mod types;
pub mod universal_lattice;
pub mod universal_point;
pub mod universal_point_generator;
pub mod utils;
pub mod wolfram_code;

pub use utils::clamp_coordinate;
pub use utils::wrap_coordinate;
