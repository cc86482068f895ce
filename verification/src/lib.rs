//! Conway's Game of Life on a toroidal grid: a flat row-major cell buffer, a
//! neighbor count with wraparound addressing, and a synchronous per-generation
//! transition under the classic B3/S23 rule.

mod laws;
mod rules;
mod universe;

pub use laws::block_grid;
pub use laws::lemma_block_still_life;
pub use laws::lemma_index_injective;
pub use laws::lemma_index_surjective;
pub use laws::lemma_neighbor_count_translation;
pub use laws::lemma_still_life_forever;
pub use laws::lemma_tick_cell;
pub use laws::lemma_tick_deterministic;

pub use rules::Cell;
pub use rules::live_value;
pub use rules::neighbor_value;
pub use rules::next_cell;
pub use rules::spec_index;
pub use rules::spec_live_neighbor_count;
pub use rules::spec_tick;
pub use rules::spec_ticks;
pub use universe::Universe;
pub use universe::lemma_index_in_range;
