//! A single play: a column chosen by a player.
use vstd::prelude::*;

use crate::game::Player;
use crate::WIDTH;

verus! {

/// A play from a `Player`.
#[derive(Debug, Clone, Copy, PartialEq, Eq, Structural)]
pub struct Play {
    column: usize,
    player: Player,
}

/// Why a play could not be built.
#[derive(Debug, Clone, Copy, PartialEq, Eq, Structural)]
pub enum Error {
    OutOfBound,
}

impl Play {
    /// The column of the play, as a mathematical value.
    pub closed spec fn spec_column(&self) -> usize {
        self.column
    }

    /// The player of the play, as a mathematical value.
    pub closed spec fn spec_player(&self) -> Player {
        self.player
    }

    /// The play of a player in a column, as a mathematical value.
    pub closed spec fn at(column: usize, player: Player) -> Play {
        Play { column, player }
    }

    /// A play is known by its column and its player.
    pub proof fn at_is_the_play(column: usize, player: Player)
        ensures
            Self::at(column, player).spec_column() == column,
            Self::at(column, player).spec_player() == player,
            forall|p: Play|
                p.spec_column() == column && p.spec_player() == player ==> p == Self::at(
                    column,
                    player,
                ),
    {
    }

    /// A play only ever names a column of the board.
    #[verifier::type_invariant]
    closed spec fn in_bounds(&self) -> bool {
        self.column < WIDTH
    }

    /// The column of the play
    #[verifier::when_used_as_spec(spec_column)]
    pub fn column(&self) -> (out: usize)
        ensures
            out == self.spec_column(),
            out < WIDTH,
    {
        proof {
            use_type_invariant(self);
        }
        self.column
    }

    /// The player of the play
    #[verifier::when_used_as_spec(spec_player)]
    pub fn player(&self) -> (out: Player)
        ensures
            out == self.spec_player(),
    {
        self.player
    }
}

impl vstd::std_specs::convert::TryFromSpecImpl<(usize, Player)> for Play {
    open spec fn obeys_try_from_spec() -> bool {
        true
    }

    closed spec fn try_from_spec(value: (usize, Player)) -> Result<Self, Self::Error> {
        if value.0 >= WIDTH {
            Err(Error::OutOfBound)
        } else {
            Ok(Play { column: value.0, player: value.1 })
        }
    }
}

impl TryFrom<(usize, Player)> for Play {
    type Error = Error;

    fn try_from(value: (usize, Player)) -> (out: Result<Self, Self::Error>)
        ensures
            value.0 < WIDTH ==> out == Ok::<Play, Error>(Play::at(value.0, value.1)),
            value.0 < WIDTH ==> out.unwrap().spec_column() == value.0 && out.unwrap().spec_player()
                == value.1,
            value.0 >= WIDTH ==> out == Err::<Play, Error>(Error::OutOfBound),
    {
        if value.0 >= WIDTH {
            Err(Error::OutOfBound)
        } else {
            Ok(Self { column: value.0, player: value.1 })
        }
    }
}

impl vstd::std_specs::convert::TryFromSpecImpl<(usize, &Player)> for Play {
    open spec fn obeys_try_from_spec() -> bool {
        true
    }

    closed spec fn try_from_spec(value: (usize, &Player)) -> Result<Self, Self::Error> {
        if value.0 >= WIDTH {
            Err(Error::OutOfBound)
        } else {
            Ok(Play { column: value.0, player: *value.1 })
        }
    }
}

impl TryFrom<(usize, &Player)> for Play {
    type Error = Error;

    fn try_from(value: (usize, &Player)) -> (out: Result<Self, Self::Error>)
        ensures
            value.0 < WIDTH ==> out == Ok::<Play, Error>(Play::at(value.0, *value.1)),
            value.0 < WIDTH ==> out.unwrap().spec_column() == value.0 && out.unwrap().spec_player()
                == *value.1,
            value.0 >= WIDTH ==> out == Err::<Play, Error>(Error::OutOfBound),
    {
        if value.0 >= WIDTH {
            Err(Error::OutOfBound)
        } else {
            Ok(Self { column: value.0, player: *value.1 })
        }
    }
}

} // verus!
