//! A row-and-column alignment game and the engine that searches it.
use vstd::prelude::*;

pub mod blocking_future;
pub mod caches;
pub mod evaluation;
pub mod evaluators;
pub mod game;
pub mod network;
pub mod thread_pool;
pub mod utils;

pub use blocking_future::BlockingFuture;
pub use evaluation::{EstimationResult, GameEvaluator, SyncEvaluator};
pub use game::board::Board;
pub use game::play::Play;
pub use game::{End, Game, GamePlayError, Player};
pub use network::{AIType, Roles};
pub use utils::string_to_ord;

verus! {

/// Height of the game board.
pub const HEIGHT: usize = 6;

/// Width of the game board.
pub const WIDTH: usize = 9;

/// Number of symbols to align to win.
pub const POWER: usize = 4;

} // verus!
