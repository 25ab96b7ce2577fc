//! Conway's Game of Life on a toroidal grid.
//!
//! The grid wraps at its edges, cells are `Dead` or `Alive`, and each
//! generation is computed from a frozen snapshot of the previous one.

mod cell;
mod rules;
mod universe;

pub use cell::Cell;
pub use rules::flat;
pub use rules::lemma_all_dead_stays_dead;
pub use rules::lemma_dead_grid_has_no_live_neighbors;
pub use rules::lemma_far_corner_changes_origin_count;
pub use rules::lemma_flat_div_mod;
pub use rules::lemma_flat_in_range;
pub use rules::lemma_origin_counts_far_corner;
pub use rules::lemma_step_at;
pub use rules::lemma_unflatten;
pub use rules::lemma_wrap_in_range;
pub use rules::live_neighbors;
pub use rules::marked;
pub use rules::next_state;
pub use rules::pair_flat;
pub use rules::seed_cell;
pub use rules::step;
pub use rules::weight_at;
pub use rules::wrap_dec;
pub use rules::wrap_inc;
pub use universe::glyph;
pub use universe::lemma_render_repeats;
pub use universe::render_text;
pub use universe::row_text;
pub use universe::rows_text;
pub use universe::Universe;
