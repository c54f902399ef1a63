//! A cellular-automaton engine: a fixed three-axis grid of small cell
//! states that evolves in synchronous ticks under a caller-chosen rule.
//!
//! Each tick evaluates the rule for every cell against a frozen view of the
//! current generation, collects the changed cells as a diff, and applies
//! the diff only once it is complete. The index space may be divided into
//! contiguous slices, one per worker; slices only read the grid, so they
//! can be evaluated concurrently and their diffs applied afterwards.
pub mod extent;
pub mod grid;
pub mod neighborhood;
pub mod rule;
pub mod schedule;
pub mod snapshot;
pub mod transition;

pub use extent::{GridError, Point, Size};
pub use grid::{Automata, AutomataIterator};
pub use neighborhood::{Neighborhood, NeighborhoodKind, MAX_NEIGHBORS};
pub use rule::{LifeRule, TransitionRule, WireWorldRule};
pub use schedule::{Remainder, Schedule};
