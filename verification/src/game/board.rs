//! The board and the rules of the game.
use vstd::prelude::*;

pub mod key;
pub mod lines;
pub mod render;
pub mod score;

pub use lines::Line;
pub use render::render_player;

use crate::game::play::Play;
use crate::game::{End, Player};
use crate::{HEIGHT, POWER, WIDTH};

verus! {

/// Represent a board state
#[derive(PartialEq, Eq, Debug, Clone, Copy, PartialOrd, Ord)]
pub struct Board {
    inner: [[Option<Player>; WIDTH]; HEIGHT],
}

/// Why a play could not be applied to a board.
#[derive(Debug, Clone, Copy, PartialEq, Eq, Structural)]
pub enum ApplyError {
    ColumnFull,
}

/// A square as it looks once the two players have changed sides.
pub open spec fn swapped(square: Option<Player>) -> Option<Player> {
    match square {
        Some(p) => Some(p.spec_other()),
        None => None,
    }
}

impl Board {
    /// What stands on the square of a row and a column.
    pub closed spec fn cell(&self, row: int, col: int) -> Option<Player> {
        self.inner@[row]@[col]
    }

    /// Read a square of the board.
    pub fn get(&self, row: usize, col: usize) -> (out: Option<Player>)
        requires
            row < HEIGHT,
            col < WIDTH,
        ensures
            out == self.cell(row as int, col as int),
    {
        self.inner[row][col]
    }

    /// The board on which nothing has been played.
    pub closed spec fn empty() -> Board {
        Board {
            inner: vstd::array::spec_array_fill_for_copy_type(
                vstd::array::spec_array_fill_for_copy_type(None),
            ),
        }
    }

    /// Every square of the empty board is free.
    pub proof fn empty_cells()
        ensures
            forall|row: int, col: int|
                0 <= row < HEIGHT && 0 <= col < WIDTH ==> (#[trigger] Self::empty().cell(row, col)) is None,
    {
        broadcast use vstd::array::group_array_axioms;

        let row = vstd::array::spec_array_fill_for_copy_type::<Option<Player>, WIDTH>(None);
        let inner = vstd::array::spec_array_fill_for_copy_type::<[Option<Player>; WIDTH], HEIGHT>(
            row,
        );
        assert forall|r: int, c: int| 0 <= r < HEIGHT && 0 <= c < WIDTH implies (
        #[trigger] Self::empty().cell(r, c)) is None by {
            assert(inner@[r] == row);
            assert(row@[c] is None);
        }
    }

    /// Two boards with the same squares are the same board.
    pub proof fn same_cells(a: Board, b: Board)
        requires
            forall|row: int, col: int|
                0 <= row < HEIGHT && 0 <= col < WIDTH ==> a.cell(row, col) == b.cell(row, col),
        ensures
            a == b,
    {
        assert forall|row: int| 0 <= row < HEIGHT implies a.inner[row] == b.inner[row] by {
            assert forall|col: int| 0 <= col < WIDTH implies a.inner[row][col] == b.inner[row][col] by {
                assert(a.cell(row, col) == b.cell(row, col));
            }
            assert(a.inner[row] =~= b.inner[row]);
        }
        assert(a.inner =~= b.inner);
    }

    /// The board with one more square taken by `p`.
    pub closed spec fn with_cell(&self, row: int, col: int, p: Player) -> Board {
        Board {
            inner: vstd::array::spec_array_update(
                self.inner,
                row,
                vstd::array::spec_array_update(self.inner@[row], col, Some(p)),
            ),
        }
    }

    /// Taking a square changes that square and no other.
    pub proof fn with_cell_cells(&self, row: int, col: int, p: Player)
        requires
            0 <= row < HEIGHT,
            0 <= col < WIDTH,
        ensures
            forall|r: int, c: int|
                0 <= r < HEIGHT && 0 <= c < WIDTH ==> #[trigger] self.with_cell(row, col, p).cell(
                    r,
                    c,
                ) == if r == row && c == col {
                    Some(p)
                } else {
                    self.cell(r, c)
                },
    {
    }

    /// Whether `other` is this board with the two players' pawns exchanged.
    pub open spec fn mirrors(&self, other: Board) -> bool {
        forall|row: int, col: int|
            0 <= row < HEIGHT && 0 <= col < WIDTH ==> #[trigger] other.cell(row, col) == swapped(
                self.cell(row, col),
            )
    }

    /// Whether every square of the board is taken.
    pub open spec fn spec_is_full(&self) -> bool {
        forall|row: int, col: int|
            0 <= row < HEIGHT && 0 <= col < WIDTH ==> (#[trigger] self.cell(row, col)) is Some
    }

    /// Whether every square of the board is taken.
    #[verifier::when_used_as_spec(spec_is_full)]
    pub fn is_full(&self) -> (out: bool)
        ensures
            out == self.spec_is_full(),
    {
        let mut check: bool = true;
        let mut ligne: usize = 0;
        while ligne < HEIGHT
            invariant
                ligne <= HEIGHT,
                check == (forall|row: int, col: int|
                    0 <= row < ligne && 0 <= col < WIDTH ==> (#[trigger] self.cell(row, col)) is Some),
            decreases HEIGHT - ligne,
        {
            let mut colonne: usize = 0;
            let ghost above = check;
            while colonne < WIDTH
                invariant
                    ligne < HEIGHT,
                    colonne <= WIDTH,
                    check == (above && forall|col: int|
                        0 <= col < colonne ==> (#[trigger] self.cell(ligne as int, col)) is Some),
                decreases WIDTH - colonne,
            {
                check = check && self.get(ligne, colonne).is_some();
                colonne = colonne + 1;
            }
            ligne = ligne + 1;
        }
        check
    }

    /// The ending that a board shows: a win of the first player who holds a
    /// line of `POWER` squares, `FIRST` before `SECOND`; a stall when nobody
    /// does and the board is full; none otherwise.
    pub open spec fn spec_end(&self) -> Option<End> {
        if self.holds_line(POWER as int, Player::FIRST) {
            Some(End::Win { player: Player::FIRST })
        } else if self.holds_line(POWER as int, Player::SECOND) {
            Some(End::Win { player: Player::SECOND })
        } else if self.is_full() {
            Some(End::Stall)
        } else {
            None
        }
    }

    /// Get the current ending of the board.
    pub fn end(&self) -> (out: Option<End>)
        ensures
            out == self.spec_end(),
    {
        proof {
            self.alignments_count_lines(POWER as int, Player::FIRST);
            self.alignments_count_lines(POWER as int, Player::SECOND);
        }
        if self.count_align(POWER, Player::FIRST) > 0 {
            return Some(End::Win { player: Player::FIRST });
        }
        if self.count_align(POWER, Player::SECOND) > 0 {
            return Some(End::Win { player: Player::SECOND });
        }
        let check = self.is_full();
        if check {
            Some(End::Stall)
        } else {
            None
        }
    }

    /// Whether every square of a column is taken.
    pub open spec fn column_full(&self, col: int) -> bool {
        forall|row: int| 0 <= row < HEIGHT ==> (#[trigger] self.cell(row, col)) is Some
    }

    /// The lowest free row of a column at or above `row`, `HEIGHT` if there is
    /// none.
    pub open spec fn landing_from(&self, col: int, row: int) -> int
        decreases HEIGHT - row,
    {
        if row >= HEIGHT {
            HEIGHT as int
        } else if self.cell(row, col) is None {
            row
        } else {
            self.landing_from(col, row + 1)
        }
    }

    /// The row in which a pawn dropped into a column comes to rest: its lowest
    /// free row, `HEIGHT` if the column is full.
    pub open spec fn landing_row(&self, col: int) -> int {
        self.landing_from(col, 0)
    }

    /// The landing row of a column is its lowest free row.
    pub proof fn landing_row_is_lowest_free(&self, col: int)
        ensures
            0 <= self.landing_row(col) <= HEIGHT,
            forall|row: int| 0 <= row < self.landing_row(col) ==> (#[trigger] self.cell(row, col)) is Some,
            self.landing_row(col) < HEIGHT ==> self.cell(self.landing_row(col), col) is None,
            self.column_full(col) <==> self.landing_row(col) == HEIGHT,
    {
        self.landing_from_is_lowest_free(col, 0);
    }

    proof fn landing_from_is_lowest_free(&self, col: int, start: int)
        requires
            0 <= start <= HEIGHT,
        ensures
            start <= self.landing_from(col, start) <= HEIGHT,
            forall|row: int|
                start <= row < self.landing_from(col, start) ==> (#[trigger] self.cell(row, col)) is Some,
            self.landing_from(col, start) < HEIGHT ==> self.cell(
                self.landing_from(col, start),
                col,
            ) is None,
        decreases HEIGHT - start,
    {
        if start < HEIGHT && self.cell(start, col) is Some {
            self.landing_from_is_lowest_free(col, start + 1);
        }
    }

    /// The board after `p` has dropped a pawn into a column.
    pub open spec fn applied(&self, col: int, p: Player) -> Board {
        self.with_cell(self.landing_row(col), col, p)
    }

    /// Get the new board state after playing the play.
    ///
    /// The pawn comes to rest in the lowest free row of the play's column; a
    /// full column refuses it.
    pub fn apply(&self, p: Play) -> (out: Result<(Self, Option<End>), ApplyError>)
        ensures
            match out {
                Ok((board, end)) => {
                    &&& !self.column_full(p.spec_column() as int)
                    &&& board == self.applied(p.spec_column() as int, p.spec_player())
                    &&& end == board.spec_end()
                },
                Err(ApplyError::ColumnFull) => self.column_full(p.spec_column() as int),
            },
    {
        let col = p.column();
        let mut idx: usize = 0;
        while idx < HEIGHT
            invariant
                idx <= HEIGHT,
                col < WIDTH,
                col == p.spec_column(),
                forall|row: int| 0 <= row < idx ==> (#[trigger] self.cell(row, col as int)) is Some,
                self.landing_from(col as int, idx as int) == self.landing_row(col as int),
            decreases HEIGHT - idx,
        {
            if self.get(idx, col).is_none() {
                let mut new = *self;
                let mut row = new.inner[idx];
                row[col] = Some(p.player());
                new.inner[idx] = row;
                proof {
                    assert(!self.column_full(col as int));
                    assert(new.inner == self.with_cell(idx as int, col as int, p.spec_player()).inner);
                }
                let w = new.end();
                return Ok((new, w));
            }
            idx = idx + 1;
        }
        Err(ApplyError::ColumnFull)
    }

    /// Whether each play of a list finds room in its column when the plays are
    /// applied in turn.
    pub open spec fn playable(&self, ps: Seq<Play>) -> bool
        decreases ps.len(),
    {
        if ps.len() == 0 {
            true
        } else {
            self.playable(ps.drop_last()) && !self.after(ps.drop_last()).column_full(
                ps.last().spec_column() as int,
            )
        }
    }

    /// The board after the plays of a list have been applied in turn.
    pub open spec fn after(&self, ps: Seq<Play>) -> Board
        decreases ps.len(),
    {
        if ps.len() == 0 {
            *self
        } else {
            self.after(ps.drop_last()).applied(
                ps.last().spec_column() as int,
                ps.last().spec_player(),
            )
        }
    }

    /// A playable list stays playable when it is cut short.
    pub proof fn playable_prefix(&self, ps: Seq<Play>, n: int)
        requires
            self.playable(ps),
            0 <= n <= ps.len(),
        ensures
            self.playable(ps.take(n)),
        decreases ps.len(),
    {
        if n == ps.len() {
            assert(ps.take(n) =~= ps);
        } else {
            self.playable_prefix(ps.drop_last(), n);
            assert(ps.drop_last().take(n) =~= ps.take(n));
        }
    }

    /// Get the new board state after playing the list of plays.
    pub fn apply_sequence(&self, ps: &[Play]) -> (out: (Self, Option<End>))
        requires
            self.playable(ps@),
        ensures
            out.0 == self.after(ps@),
            out.1 == out.0.spec_end(),
    {
        let mut board = *self;
        let mut end = board.end();
        let mut i: usize = 0;
        assert(ps@.take(0) =~= Seq::empty());
        while i < ps.len()
            invariant
                i <= ps@.len(),
                self.playable(ps@),
                board == self.after(ps@.take(i as int)),
                end == board.spec_end(),
            decreases ps@.len() - i,
        {
            proof {
                assert(ps@.take(i + 1).drop_last() =~= ps@.take(i as int));
                assert(ps@.take(i + 1).last() == ps@[i as int]);
                self.playable_prefix(ps@, i + 1);
            }
            let (b, e) = board.apply(ps[i]).unwrap();
            board = b;
            end = e;
            i = i + 1;
        }
        assert(ps@.take(i as int) =~= ps@);
        (board, end)
    }

    /// The plays open to `p` in the columns below `n`, in the order of the
    /// columns: each with its column, the board it leads to and that board's
    /// ending.
    pub open spec fn moves_upto(&self, p: Player, n: int) -> Seq<(usize, Board, Option<End>)>
        decreases n,
    {
        if n <= 0 {
            Seq::empty()
        } else {
            let before = self.moves_upto(p, n - 1);
            if self.column_full(n - 1) {
                before
            } else {
                before.push(
                    ((n - 1) as usize, self.applied(n - 1, p), self.applied(n - 1, p).spec_end()),
                )
            }
        }
    }

    /// The plays open to `p` on this board.
    pub open spec fn spec_legal_moves(&self, p: Player) -> Seq<(usize, Board, Option<End>)> {
        self.moves_upto(p, WIDTH as int)
    }

    /// Get a list of the legal column and board state possible from this board state.
    pub fn legal_moves(&self, p: Player) -> (out: Vec<(usize, Board, Option<End>)>)
        ensures
            out@ == self.spec_legal_moves(p),
    {
        let mut v: Vec<(usize, Board, Option<End>)> = Vec::new();
        let mut idx: usize = 0;
        while idx < WIDTH
            invariant
                idx <= WIDTH,
                v@ == self.moves_upto(p, idx as int),
            decreases WIDTH - idx,
        {
            let play = Play::try_from((idx, p)).unwrap();
            match self.apply(play) {
                Ok((b, e)) => {
                    v.push((idx, b, e));
                },
                Err(_) => {},
            }
            idx = idx + 1;
        }
        v
    }

    /// Each legal move names a column that is not full, the board that a pawn
    /// dropped there leads to, and that board's ending; the columns come in
    /// rising order.
    pub proof fn legal_moves_are_open(&self, p: Player)
        ensures
            forall|j: int|
                0 <= j < self.spec_legal_moves(p).len() ==> {
                    let m = #[trigger] self.spec_legal_moves(p)[j];
                    &&& m.0 < WIDTH
                    &&& !self.column_full(m.0 as int)
                    &&& m.1 == self.applied(m.0 as int, p)
                    &&& m.2 == m.1.spec_end()
                },
    {
        self.moves_upto_are_open(p, WIDTH as int);
    }

    proof fn moves_upto_are_open(&self, p: Player, n: int)
        requires
            n <= WIDTH,
        ensures
            self.moves_upto(p, n).len() <= n || n <= 0,
            forall|j: int|
                0 <= j < self.moves_upto(p, n).len() ==> {
                    let m = #[trigger] self.moves_upto(p, n)[j];
                    &&& m.0 < n
                    &&& !self.column_full(m.0 as int)
                    &&& m.1 == self.applied(m.0 as int, p)
                    &&& m.2 == m.1.spec_end()
                },
        decreases n,
    {
        if n > 0 {
            self.moves_upto_are_open(p, n - 1);
        }
    }

    /// A board that is not full has a legal move.
    pub proof fn open_board_has_moves(&self, p: Player)
        requires
            !self.is_full(),
        ensures
            self.spec_legal_moves(p).len() > 0,
    {
        let (row, col) = choose|row: int, col: int|
            0 <= row < HEIGHT && 0 <= col < WIDTH && !(#[trigger] self.cell(row, col) is Some);
        assert(!self.column_full(col));
        self.open_column_is_a_move(p, col, WIDTH as int);
    }

    proof fn open_column_is_a_move(&self, p: Player, col: int, n: int)
        requires
            0 <= col < n,
            !self.column_full(col),
        ensures
            self.moves_upto(p, n).len() > 0,
        decreases n,
    {
        if col < n - 1 {
            self.open_column_is_a_move(p, col, n - 1);
        }
    }

    /// Number of pawns among the first `n` squares, row after row.
    pub open spec fn taken_upto(&self, n: int) -> nat
        decreases n,
    {
        if n <= 0 {
            0
        } else {
            self.taken_upto(n - 1) + if self.cell((n - 1) / (WIDTH as int), (n - 1) % (WIDTH as int)) is Some {
                1nat
            } else {
                0nat
            }
        }
    }

    /// Number of pawns on the board.
    pub open spec fn pieces(&self) -> nat {
        self.taken_upto(HEIGHT * WIDTH)
    }

    proof fn taken_upto_with_cell(&self, row: int, col: int, p: Player, n: int)
        requires
            0 <= row < HEIGHT,
            0 <= col < WIDTH,
            self.cell(row, col) is None,
            0 <= n <= HEIGHT * WIDTH,
        ensures
            self.with_cell(row, col, p).taken_upto(n) == self.taken_upto(n) + if n > row * WIDTH
                + col {
                1nat
            } else {
                0nat
            },
        decreases n,
    {
        if n > 0 {
            self.taken_upto_with_cell(row, col, p, n - 1);
            self.with_cell_cells(row, col, p);
            let r = (n - 1) / (WIDTH as int);
            let c = (n - 1) % (WIDTH as int);
            assert(0 <= r < HEIGHT && 0 <= c < WIDTH);
            assert(n - 1 == r * WIDTH + c);
        }
    }

    proof fn taken_upto_counts(&self, n: int)
        requires
            0 <= n <= HEIGHT * WIDTH,
        ensures
            self.taken_upto(n) <= n,
            self.taken_upto(n) == n <==> forall|row: int, col: int|
                0 <= row < HEIGHT && 0 <= col < WIDTH && row * WIDTH + col < n ==> (
                #[trigger] self.cell(row, col)) is Some,
        decreases n,
    {
        if n > 0 {
            self.taken_upto_counts(n - 1);
            let r = (n - 1) / (WIDTH as int);
            let c = (n - 1) % (WIDTH as int);
            assert(0 <= r < HEIGHT && 0 <= c < WIDTH && r * WIDTH + c == n - 1);
            if self.taken_upto(n) == n {
                assert forall|row: int, col: int|
                    0 <= row < HEIGHT && 0 <= col < WIDTH && row * WIDTH + col < n implies (
                #[trigger] self.cell(row, col)) is Some by {
                    if row * WIDTH + col == n - 1 {
                        assert(row == r && col == c);
                    }
                }
            } else {
                if self.taken_upto(n - 1) == n - 1 {
                    assert(self.cell(r, c) is None);
                } else {
                    let (row, col) = choose|row: int, col: int|
                        0 <= row < HEIGHT && 0 <= col < WIDTH && row * WIDTH + col < n - 1 && !((
                        #[trigger] self.cell(row, col)) is Some);
                    assert(row * WIDTH + col < n);
                }
            }
        }
    }

    /// A board holds no more pawns than it has squares, and as many exactly
    /// when it is full.
    pub proof fn full_board_has_every_piece(&self)
        ensures
            self.pieces() <= HEIGHT * WIDTH,
            self.is_full() <==> self.pieces() == HEIGHT * WIDTH,
    {
        self.taken_upto_counts(HEIGHT * WIDTH);
        if self.is_full() {
            assert forall|row: int, col: int|
                0 <= row < HEIGHT && 0 <= col < WIDTH && row * WIDTH + col < HEIGHT * WIDTH implies (
            #[trigger] self.cell(row, col)) is Some by {}
        }
        if self.pieces() == HEIGHT * WIDTH {
            assert forall|row: int, col: int| 0 <= row < HEIGHT && 0 <= col < WIDTH implies (
            #[trigger] self.cell(row, col)) is Some by {
                assert(row * WIDTH + col < HEIGHT * WIDTH);
            }
        }
    }

    /// A play puts one more pawn on the board.
    pub proof fn applied_adds_a_piece(&self, col: int, p: Player)
        requires
            0 <= col < WIDTH,
            !self.column_full(col),
        ensures
            self.applied(col, p).pieces() == self.pieces() + 1,
    {
        self.landing_row_is_lowest_free(col);
        self.taken_upto_with_cell(self.landing_row(col), col, p, HEIGHT * WIDTH);
    }
}

impl Default for Board {
    /// The board on which nothing has been played.
    fn default() -> (out: Self)
        ensures
            out == Board::empty(),
    {
        broadcast use vstd::array::group_array_axioms;

        let free: Option<Player> = None;
        let row: [Option<Player>; WIDTH] = [free;WIDTH];
        let inner: [[Option<Player>; WIDTH]; HEIGHT] = [row;HEIGHT];
        Self { inner }
    }
}

} // verus!
