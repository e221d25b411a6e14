//! The score of a position.
use vstd::prelude::*;

use crate::evaluation::SCORE_UNIT;
use crate::game::board::{swapped, Board};
use crate::game::Player;
use crate::{HEIGHT, WIDTH};

verus! {

impl Board {
    /// The distance of a square from the middle of the board, rows and columns
    /// added, counted in halves of a square.
    pub open spec fn distance(row: int, col: int) -> int {
        let rows = if 2 * row >= HEIGHT {
            2 * row - HEIGHT
        } else {
            HEIGHT - 2 * row
        };
        let cols = if 2 * col >= WIDTH {
            2 * col - WIDTH
        } else {
            WIDTH - 2 * col
        };
        rows + cols
    }

    /// What a pawn on a square is worth, in score units: one point divided by
    /// one more than the square's distance from the middle of the board, rows
    /// and columns added.
    pub open spec fn weight(row: int, col: int) -> int {
        (2 * SCORE_UNIT) / (Self::distance(row, col) + 2)
    }

    /// What a square brings to the score: its weight for a pawn of `FIRST`,
    /// the opposite for a pawn of `SECOND`, nothing when it is free.
    pub open spec fn cell_score(&self, row: int, col: int) -> int {
        match self.cell(row, col) {
            Some(Player::FIRST) => Self::weight(row, col),
            Some(Player::SECOND) => -Self::weight(row, col),
            None => 0,
        }
    }

    /// What the first `n` squares bring to the score, row after row.
    pub open spec fn score_upto(&self, n: int) -> int
        decreases n,
    {
        if n <= 0 {
            0
        } else {
            self.score_upto(n - 1) + self.cell_score((n - 1) / (WIDTH as int), (n - 1) % (WIDTH as int))
        }
    }

    /// The score of a position: what its pawns are worth, and ten points for
    /// each line of three that `FIRST` holds, less ten for each of `SECOND`.
    pub open spec fn spec_naive_eval(&self) -> int {
        self.score_upto(HEIGHT * WIDTH) + 10 * SCORE_UNIT * (self.alignments(3, Player::FIRST)
            - self.alignments(3, Player::SECOND))
    }

    /// The weight of a square is exact: a whole number of score units, with
    /// nothing lost in the division.
    pub proof fn weight_is_exact(row: int, col: int)
        requires
            0 <= row < HEIGHT,
            0 <= col < WIDTH,
        ensures
            Self::weight(row, col) * (Self::distance(row, col) + 2) == 2 * SCORE_UNIT,
    {
        let d = Self::distance(row, col) + 2;
        assert(d == 3 || d == 5 || d == 7 || d == 9 || d == 11 || d == 13 || d == 15 || d == 17);
        assert(1531530int / 3 * 3 == 1531530);
        assert(1531530int / 5 * 5 == 1531530);
        assert(1531530int / 7 * 7 == 1531530);
        assert(1531530int / 9 * 9 == 1531530);
        assert(1531530int / 11 * 11 == 1531530);
        assert(1531530int / 13 * 13 == 1531530);
        assert(1531530int / 15 * 15 == 1531530);
        assert(1531530int / 17 * 17 == 1531530);
    }

    /// A square is worth more than nothing and at most two thirds of a point.
    pub proof fn weight_bounded(row: int, col: int)
        requires
            0 <= row < HEIGHT,
            0 <= col < WIDTH,
        ensures
            0 < Self::weight(row, col) <= 510510,
    {
        let d = Self::distance(row, col) + 2;
        assert(0 < 1531530int / d <= 510510) by (nonlinear_arith)
            requires
                3 <= d <= 17,
        ;
    }

    /// The squares alone never bring more than their number of thirds of two
    /// points.
    pub proof fn score_upto_bounded(&self, n: int)
        requires
            0 <= n <= HEIGHT * WIDTH,
        ensures
            -510510 * n <= self.score_upto(n) <= 510510 * n,
        decreases n,
    {
        if n > 0 {
            self.score_upto_bounded(n - 1);
            let row = (n - 1) / (WIDTH as int);
            let col = (n - 1) % (WIDTH as int);
            Self::weight_bounded(row, col);
        }
    }

    /// The score of a position stays far inside the range of a partial
    /// estimation.
    pub proof fn naive_eval_bounded(&self)
        ensures
            -2200000000 < self.spec_naive_eval() < 2200000000,
    {
        self.score_upto_bounded(HEIGHT * WIDTH);
        self.alignments_bounded(3, Player::FIRST);
        self.alignments_bounded(3, Player::SECOND);
    }

    /// Eval the current positions
    ///
    /// The implementation gives an advantage to the player that has the most
    /// pawns close to the center of the board. The result is counted in score
    /// units.
    pub fn naive_eval(&self) -> (out: i64)
        ensures
            out == self.spec_naive_eval(),
    {
        let mut cnt: i64 = 0;
        let mut ligne: usize = 0;
        while ligne < HEIGHT
            invariant
                ligne <= HEIGHT,
                cnt == self.score_upto(ligne * WIDTH),
            decreases HEIGHT - ligne,
        {
            let mut colonne: usize = 0;
            while colonne < WIDTH
                invariant
                    ligne < HEIGHT,
                    colonne <= WIDTH,
                    cnt == self.score_upto(ligne * WIDTH + colonne),
                decreases WIDTH - colonne,
            {
                proof {
                    let n = ligne * WIDTH + colonne;
                    assert(n / (WIDTH as int) == ligne as int);
                    assert(n % (WIDTH as int) == colonne as int);
                    self.score_upto_bounded(n);
                    Self::weight_bounded(ligne as int, colonne as int);
                }
                let rows: usize = if 2 * ligne >= HEIGHT {
                    2 * ligne - HEIGHT
                } else {
                    HEIGHT - 2 * ligne
                };
                let cols: usize = if 2 * colonne >= WIDTH {
                    2 * colonne - WIDTH
                } else {
                    WIDTH - 2 * colonne
                };
                let v: i64 = (2 * SCORE_UNIT) / ((rows + cols + 2) as i64);
                match self.get(ligne, colonne) {
                    Some(Player::FIRST) => {
                        cnt = cnt + v;
                    },
                    Some(Player::SECOND) => {
                        cnt = cnt - v;
                    },
                    None => {},
                }
                colonne = colonne + 1;
            }
            ligne = ligne + 1;
        }
        proof {
            self.score_upto_bounded(HEIGHT * WIDTH);
            self.alignments_bounded(3, Player::FIRST);
            self.alignments_bounded(3, Player::SECOND);
        }
        let first: i64 = self.count_align(3, Player::FIRST) as i64;
        let second: i64 = self.count_align(3, Player::SECOND) as i64;
        cnt + 10 * SCORE_UNIT * first - 10 * SCORE_UNIT * second
    }

    proof fn mirrored_score_upto(&self, other: Board, n: int)
        requires
            self.mirrors(other),
            n <= HEIGHT * WIDTH,
        ensures
            other.score_upto(n) == -self.score_upto(n),
        decreases n,
    {
        if n > 0 {
            self.mirrored_score_upto(other, n - 1);
            let row = (n - 1) / (WIDTH as int);
            let col = (n - 1) % (WIDTH as int);
            assert(0 <= row < HEIGHT && 0 <= col < WIDTH);
            assert(other.cell(row, col) == swapped(self.cell(row, col)));
        }
    }

    /// The score is antisymmetric in the two players: when they change
    /// sides, the score changes sign.
    pub proof fn naive_eval_is_antisymmetric(&self, other: Board)
        requires
            self.mirrors(other),
        ensures
            other.spec_naive_eval() == -self.spec_naive_eval(),
    {
        self.mirrored_score_upto(other, HEIGHT * WIDTH);
        self.mirrored_alignments(other, 3, Player::FIRST);
        self.mirrored_alignments(other, 3, Player::SECOND);
    }
}

} // verus!
