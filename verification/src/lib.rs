//! Rules engine for "Shut the Box": a board of nine numbered tiles starts
//! fully raised; each turn the player rolls dice and must lower a set of
//! raised tiles whose values sum exactly to the roll. The game ends in a win
//! when every tile is lowered, or in a loss when no combination of raised
//! tiles can match the active roll.

mod state;
mod game;

pub use game::Game;
pub use state::GameView;
pub use state::all_lowered;
pub use state::all_raised;
pub use state::can_reach;
pub use state::fresh;
pub use state::lemma_same_move_rejected;
pub use state::lemma_score_after_lower;
pub use state::lemma_score_of_fresh_board;
pub use state::lemma_score_zero_iff_all_lowered;
pub use state::one_die_mode;
pub use state::seq_sum;
pub use state::tile_sum;
pub use state::valid_move;
