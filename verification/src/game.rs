//! Game logic: the players, the endings and the state of a game.
use vstd::prelude::*;

use crate::WIDTH;

pub mod board;
pub mod play;

use crate::game::board::{ApplyError, Board};
use crate::game::play::Play;

verus! {

/// One of the two players.
#[derive(PartialEq, Eq, Structural, Clone, Copy, Debug, PartialOrd, Ord)]
pub enum Player {
    /// First player
    FIRST,
    /// Second player
    SECOND,
}

impl Player {
    /// The opponent of a player.
    pub open spec fn spec_other(&self) -> Player {
        match self {
            Player::FIRST => Player::SECOND,
            Player::SECOND => Player::FIRST,
        }
    }

    /// Get the other player.
    #[verifier::when_used_as_spec(spec_other)]
    pub fn other(&self) -> (out: Player)
        ensures
            out == self.spec_other(),
    {
        match self {
            Player::FIRST => Player::SECOND,
            Player::SECOND => Player::FIRST,
        }
    }
}

/// A possible ending of a game.
#[derive(Debug, Clone, Copy, PartialEq, Eq, Structural)]
pub enum End {
    /// The player has won
    Win { player: Player },
    /// There is no more possible play, no one has won
    Stall,
}


/// The state of a game: the board, the player to move and the plays so far.
///
/// The board is always the one that the plays lead to from the empty board,
/// and `FIRST` is to move whenever an even number of plays has been made.
#[derive(Debug, PartialEq, Eq)]
pub struct Game {
    current_board: Board,
    to_play: Player,
    history: Vec<Play>,
}

/// Why a play was refused by a game.
#[derive(Debug, Clone, Copy, PartialEq, Eq, Structural)]
pub enum GamePlayError {
    OutOfBound,
    FullCollumn,
}

impl vstd::std_specs::convert::FromSpecImpl<play::Error> for GamePlayError {
    open spec fn obeys_from_spec() -> bool {
        true
    }

    open spec fn from_spec(value: play::Error) -> GamePlayError {
        GamePlayError::OutOfBound
    }
}

impl From<play::Error> for GamePlayError {
    fn from(value: play::Error) -> (out: Self) {
        match value {
            play::Error::OutOfBound => Self::OutOfBound,
        }
    }
}

impl vstd::std_specs::convert::FromSpecImpl<ApplyError> for GamePlayError {
    open spec fn obeys_from_spec() -> bool {
        true
    }

    open spec fn from_spec(value: ApplyError) -> GamePlayError {
        GamePlayError::FullCollumn
    }
}

impl From<ApplyError> for GamePlayError {
    fn from(value: ApplyError) -> (out: Self) {
        match value {
            ApplyError::ColumnFull => Self::FullCollumn,
        }
    }
}

/// The player who moves after `n` plays: `FIRST` when `n` is even.
pub open spec fn player_after(n: nat) -> Player {
    if n % 2 == 1 {
        Player::SECOND
    } else {
        Player::FIRST
    }
}

impl Game {
    /// The board of the game, as a mathematical value.
    pub closed spec fn spec_board(&self) -> Board {
        self.current_board
    }

    /// The player to move, as a mathematical value.
    pub closed spec fn spec_next_to_play(&self) -> Player {
        self.to_play
    }

    /// The plays made so far, oldest first.
    pub closed spec fn spec_history(&self) -> Seq<Play> {
        self.history@
    }

    /// The board and the player to move follow from the plays.
    #[verifier::type_invariant]
    closed spec fn consistent(&self) -> bool {
        &&& Board::empty().playable(self.history@)
        &&& self.current_board == Board::empty().after(self.history@)
        &&& self.to_play == player_after(self.history@.len())
    }

    /// The game that a list of plays leads to from the empty board.
    pub fn from(value: Vec<Play>) -> (out: Self)
        requires
            Board::empty().playable(value@),
        ensures
            out.spec_history() == value@,
            out.spec_board() == Board::empty().after(value@),
            out.spec_next_to_play() == player_after(value@.len()),
    {
        let a = Board::default();
        let b = a.apply_sequence(value.as_slice());
        let to_play = if (value.len() % 2) == 1 {
            Player::SECOND
        } else {
            Player::FIRST
        };
        Self { current_board: b.0, to_play, history: value }
    }

    /// Play in the column `col`
    ///
    /// The player to move drops a pawn there and the turn passes to the other
    /// player. A column off the board or a full one is refused and leaves the
    /// game as it was.
    pub fn play(&mut self, col: usize) -> (out: Result<Option<End>, GamePlayError>)
        ensures
            match out {
                Ok(end) => {
                    &&& col < WIDTH
                    &&& !old(self).spec_board().column_full(col as int)
                    &&& final(self).spec_board() == old(self).spec_board().applied(
                        col as int,
                        old(self).spec_next_to_play(),
                    )
                    &&& final(self).spec_next_to_play() == old(self).spec_next_to_play().spec_other()
                    &&& final(self).spec_history().len() == old(self).spec_history().len() + 1
                    &&& final(self).spec_history().drop_last() == old(self).spec_history()
                    &&& final(self).spec_history().last().spec_column() == col
                    &&& final(self).spec_history().last().spec_player() == old(self).spec_next_to_play()
                    &&& end == final(self).spec_board().spec_end()
                },
                Err(GamePlayError::OutOfBound) => col >= WIDTH && *final(self) == *old(self),
                Err(GamePlayError::FullCollumn) => {
                    &&& col < WIDTH
                    &&& old(self).spec_board().column_full(col as int)
                    &&& *final(self) == *old(self)
                },
            },
    {
        proof {
            use_type_invariant(&*self);
        }
        let p: Play = match Play::try_from((col, self.to_play)) {
            Ok(p) => p,
            Err(e) => {
                return Err(GamePlayError::from(e));
            },
        };
        let (next, winner) = match self.current_board.apply(p) {
            Ok(r) => r,
            Err(e) => {
                return Err(GamePlayError::from(e));
            },
        };
        let mut history = self.history();
        history.push(p);
        proof {
            assert(history@.drop_last() =~= self.history@);
        }
        *self = Self { current_board: next, to_play: self.to_play.other(), history };
        Ok(winner)
    }

    /// Render the game as the bytes of its board's text.
    pub fn render(&self) -> (out: Vec<u8>)
        ensures
            out@ == self.spec_board().spec_render(),
    {
        self.current_board.render()
    }

    /// Get the history of play of the game
    pub fn history(&self) -> (out: Vec<Play>)
        ensures
            out@ == self.spec_history(),
            Board::empty().playable(out@),
    {
        proof {
            use_type_invariant(self);
        }
        let mut out: Vec<Play> = Vec::new();
        let mut i: usize = 0;
        while i < self.history.len()
            invariant
                i <= self.history@.len(),
                out@ == self.history@.take(i as int),
            decreases self.history@.len() - i,
        {
            out.push(self.history[i]);
            assert(self.history@.take(i + 1) =~= self.history@.take(i as int).push(
                self.history@[i as int],
            ));
            i = i + 1;
        }
        assert(self.history@.take(i as int) =~= self.history@);
        out
    }

    /// Get the current ending of the game
    pub fn end(&self) -> (out: Option<End>)
        ensures
            out == self.spec_board().spec_end(),
    {
        self.current_board.end()
    }

    /// Get the next player to play
    #[verifier::when_used_as_spec(spec_next_to_play)]
    pub fn next_to_play(&self) -> (out: Player)
        ensures
            out == self.spec_next_to_play(),
            out == player_after(self.spec_history().len()),
    {
        proof {
            use_type_invariant(self);
        }
        self.to_play
    }

    /// Get the current state of the board
    #[verifier::when_used_as_spec(spec_board)]
    pub fn board(&self) -> (out: Board)
        ensures
            out == self.spec_board(),
            out == Board::empty().after(self.spec_history()),
    {
        proof {
            use_type_invariant(self);
        }
        self.current_board
    }
}

impl Clone for Game {
    /// A game with the same board, player to move and plays.
    fn clone(&self) -> (out: Self)
        ensures
            out.spec_board() == self.spec_board(),
            out.spec_next_to_play() == self.spec_next_to_play(),
            out.spec_history() == self.spec_history(),
    {
        proof {
            use_type_invariant(self);
        }
        Self { current_board: self.current_board, to_play: self.to_play, history: self.history() }
    }
}

impl Default for Game {
    /// The game in which nothing has been played yet.
    fn default() -> (out: Self)
        ensures
            out.spec_board() == Board::empty(),
            out.spec_next_to_play() == Player::FIRST,
            out.spec_history() == Seq::<Play>::empty(),
    {
        Self { current_board: Board::default(), to_play: Player::FIRST, history: Vec::new() }
    }
}

} // verus!
