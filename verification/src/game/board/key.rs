//! The key by which a position is remembered.
use vstd::prelude::*;

use crate::game::board::Board;
use crate::game::Player;
use crate::{HEIGHT, WIDTH};

verus! {

/// Number of codes that a row of `n` squares can have.
pub open spec fn row_span(n: nat) -> int
    decreases n,
{
    if n == 0 {
        1
    } else {
        4 * row_span((n - 1) as nat)
    }
}

/// Number of codes that `n` rows can have.
pub open spec fn rows_span(n: nat) -> int
    decreases n,
{
    if n == 0 {
        1
    } else {
        262144 * rows_span((n - 1) as nat)
    }
}

/// The number that stands for a player in a key.
pub open spec fn player_digit(p: Player) -> int {
    match p {
        Player::FIRST => 0,
        Player::SECOND => 1,
    }
}

impl Board {
    /// The number that stands for a square in a key: 0 when it is free, 1 for
    /// a pawn of `FIRST`, 2 for a pawn of `SECOND`.
    pub open spec fn digit(&self, row: int, col: int) -> int {
        match self.cell(row, col) {
            None => 0,
            Some(Player::FIRST) => 1,
            Some(Player::SECOND) => 2,
        }
    }

    /// The first `n` squares of a row read as a number in base four.
    pub open spec fn row_code(&self, row: int, n: nat) -> int
        decreases n,
    {
        if n == 0 {
            0
        } else {
            self.row_code(row, (n - 1) as nat) * 4 + self.digit(row, n - 1)
        }
    }

    /// The first `n` rows read as one number, each row taking the room of
    /// `WIDTH` squares.
    pub open spec fn rows_code(&self, n: nat) -> int
        decreases n,
    {
        if n == 0 {
            0
        } else {
            self.rows_code((n - 1) as nat) * 262144 + self.row_code(n - 1, WIDTH as nat)
        }
    }

    /// The key of a position: the board with the player to move, as one
    /// number. No two positions share a key.
    pub open spec fn spec_key(&self, player: Player) -> u128 {
        (self.rows_code(HEIGHT as nat) * 2 + player_digit(player)) as u128
    }

    proof fn row_code_bounded(&self, row: int, n: nat)
        ensures
            0 <= self.row_code(row, n) < row_span(n),
        decreases n,
    {
        if n > 0 {
            self.row_code_bounded(row, (n - 1) as nat);
        }
    }

    proof fn rows_code_bounded(&self, n: nat)
        requires
            n <= HEIGHT,
        ensures
            0 <= self.rows_code(n) < rows_span(n),
        decreases n,
    {
        if n > 0 {
            self.rows_code_bounded((n - 1) as nat);
            self.row_code_bounded(n - 1, WIDTH as nat);
            reveal_with_fuel(row_span, 10);
        }
    }

    /// The key is read off the squares without loss: the number of the rows
    /// stays below `2^108`.
    pub proof fn key_in_range(&self, player: Player)
        ensures
            self.spec_key(player) == self.rows_code(HEIGHT as nat) * 2 + player_digit(player),
            0 <= self.rows_code(HEIGHT as nat) < 0x1000_0000_0000_0000_0000_0000_0000,
    {
        self.rows_code_bounded(HEIGHT as nat);
        reveal_with_fuel(rows_span, 7);
    }

    proof fn row_code_injective(a: Board, b: Board, row: int, n: nat)
        requires
            a.row_code(row, n) == b.row_code(row, n),
        ensures
            forall|col: int| 0 <= col < n ==> a.cell(row, col) == b.cell(row, col),
        decreases n,
    {
        if n > 0 {
            a.row_code_bounded(row, (n - 1) as nat);
            b.row_code_bounded(row, (n - 1) as nat);
            Self::row_code_injective(a, b, row, (n - 1) as nat);
        }
    }

    proof fn rows_code_injective(a: Board, b: Board, n: nat)
        requires
            n <= HEIGHT,
            a.rows_code(n) == b.rows_code(n),
        ensures
            forall|row: int, col: int|
                0 <= row < n && 0 <= col < WIDTH ==> a.cell(row, col) == b.cell(row, col),
        decreases n,
    {
        if n > 0 {
            a.row_code_bounded(n - 1, WIDTH as nat);
            b.row_code_bounded(n - 1, WIDTH as nat);
            reveal_with_fuel(row_span, 10);
            Self::rows_code_injective(a, b, (n - 1) as nat);
            Self::row_code_injective(a, b, n - 1, WIDTH as nat);
        }
    }

    /// Two positions with the same key are the same position.
    pub proof fn key_is_injective(a: Board, p: Player, b: Board, q: Player)
        requires
            a.spec_key(p) == b.spec_key(q),
        ensures
            a == b,
            p == q,
    {
        a.key_in_range(p);
        b.key_in_range(q);
        Self::rows_code_injective(a, b, HEIGHT as nat);
        Self::same_cells(a, b);
    }

    /// The key of the position in which `player` is to move on this board.
    pub fn key(&self, player: Player) -> (out: u128)
        ensures
            out == self.spec_key(player),
    {
        let mut code: u128 = 0;
        let mut ligne: usize = 0;
        while ligne < HEIGHT
            invariant
                ligne <= HEIGHT,
                code == self.rows_code(ligne as nat),
            decreases HEIGHT - ligne,
        {
            let mut row: u128 = 0;
            let mut colonne: usize = 0;
            while colonne < WIDTH
                invariant
                    ligne < HEIGHT,
                    colonne <= WIDTH,
                    row == self.row_code(ligne as int, colonne as nat),
                decreases WIDTH - colonne,
            {
                proof {
                    self.row_code_bounded(ligne as int, colonne as nat);
                    reveal_with_fuel(row_span, 10);
                }
                let digit: u128 = match self.get(ligne, colonne) {
                    None => 0,
                    Some(Player::FIRST) => 1,
                    Some(Player::SECOND) => 2,
                };
                row = row * 4 + digit;
                colonne = colonne + 1;
            }
            proof {
                self.rows_code_bounded(ligne as nat);
                self.row_code_bounded(ligne as int, WIDTH as nat);
                reveal_with_fuel(row_span, 10);
                reveal_with_fuel(rows_span, 7);
            }
            code = code * 262144 + row;
            ligne = ligne + 1;
        }
        proof {
            self.key_in_range(player);
        }
        let turn: u128 = match player {
            Player::FIRST => 0,
            Player::SECOND => 1,
        };
        code * 2 + turn
    }
}

} // verus!
