//! The board as text.
use vstd::prelude::*;

use crate::game::board::Board;
use crate::game::Player;
use crate::{HEIGHT, WIDTH};

verus! {

/// The bar between two squares of a row: `|`.
pub const VERTICAL_SEPARATOR: u8 = 124;

/// The dash between two rows: `-`.
pub const HORIZONTAL_SEPARATOR: u8 = 45;

/// The crossing of a bar and a dash: `+`.
pub const CROSS_SEPARATOR: u8 = 43;

/// What is drawn on a free square: a blank.
pub const FILLER: u8 = 32;

/// The end of a line of text: a line feed.
pub const LINE_END: u8 = 10;

/// The letter of the first column: `a`.
pub const FIRST_LETTER: u8 = 97;

/// The mark that stands for a player's pawns.
pub open spec fn player_mark(p: Player) -> char {
    match p {
        Player::FIRST => 'o',
        Player::SECOND => 'x',
    }
}

/// The mark that stands for a player's pawns.
pub fn render_player(p: &Player) -> (out: char)
    ensures
        out == player_mark(*p),
{
    match p {
        Player::FIRST => 'o',
        Player::SECOND => 'x',
    }
}

/// A crossing followed by `n` dashes, each with its crossing.
pub open spec fn separator(n: int) -> Seq<u8>
    decreases n,
{
    if n <= 0 {
        seq![CROSS_SEPARATOR]
    } else {
        separator(n - 1) + seq![HORIZONTAL_SEPARATOR, CROSS_SEPARATOR]
    }
}

/// The line that is drawn between two rows of the board.
pub open spec fn separator_line() -> Seq<u8> {
    separator(WIDTH as int) + seq![LINE_END]
}

/// A bar followed by the letters of the first `n` columns, each with its bar.
pub open spec fn column_letters(n: int) -> Seq<u8>
    decreases n,
{
    if n <= 0 {
        seq![VERTICAL_SEPARATOR]
    } else {
        column_letters(n - 1) + seq![(FIRST_LETTER + n - 1) as u8, VERTICAL_SEPARATOR]
    }
}

/// The letter that names a column.
fn letter(idx: usize) -> (out: u8)
    requires
        idx < WIDTH,
    ensures
        out == FIRST_LETTER + idx,
{
    FIRST_LETTER + idx as u8
}

impl Board {
    /// The byte drawn for a square: its player's mark, or a blank.
    pub open spec fn square_mark(&self, row: int, col: int) -> u8 {
        match self.cell(row, col) {
            Some(p) => player_mark(p) as u8,
            None => FILLER,
        }
    }

    /// The first `n` squares of a row, each behind its bar.
    pub open spec fn row_squares(&self, row: int, n: int) -> Seq<u8>
        decreases n,
    {
        if n <= 0 {
            Seq::empty()
        } else {
            self.row_squares(row, n - 1) + seq![VERTICAL_SEPARATOR, self.square_mark(row, n - 1)]
        }
    }

    /// A row as it is drawn: its squares, the closing bar, and the separator
    /// line below it.
    pub open spec fn row_text(&self, row: int) -> Seq<u8> {
        self.row_squares(row, WIDTH as int) + seq![VERTICAL_SEPARATOR, LINE_END]
            + separator_line()
    }

    /// The `n` highest rows as they are drawn, the highest first.
    pub open spec fn rows_text(&self, n: int) -> Seq<u8>
        decreases n,
    {
        if n <= 0 {
            Seq::empty()
        } else {
            self.rows_text(n - 1) + self.row_text(HEIGHT - n)
        }
    }

    /// The board as text: a separator line, the rows from the highest to the
    /// lowest, and the line of the columns' letters.
    pub open spec fn spec_render(&self) -> Seq<u8> {
        separator_line() + self.rows_text(HEIGHT as int) + column_letters(WIDTH as int)
            + seq![LINE_END]
    }

    /// Render the board as the bytes of its text.
    pub fn render(&self) -> (out: Vec<u8>)
        ensures
            out@ == self.spec_render(),
    {
        let mut interligne: Vec<u8> = Vec::new();
        interligne.push(CROSS_SEPARATOR);
        let mut idx: usize = 0;
        while idx < WIDTH
            invariant
                idx <= WIDTH,
                interligne@ == separator(idx as int),
            decreases WIDTH - idx,
        {
            interligne.push(HORIZONTAL_SEPARATOR);
            interligne.push(CROSS_SEPARATOR);
            idx = idx + 1;
            assert(interligne@ =~= separator(idx as int));
        }
        interligne.push(LINE_END);
        let mut out: Vec<u8> = Vec::new();
        out.extend_from_slice(interligne.as_slice());
        assert(out@ =~= separator_line() + self.rows_text(0));
        let mut drawn: usize = 0;
        while drawn < HEIGHT
            invariant
                drawn <= HEIGHT,
                interligne@ == separator_line(),
                out@ == separator_line() + self.rows_text(drawn as int),
            decreases HEIGHT - drawn,
        {
            let line: usize = HEIGHT - 1 - drawn;
            let ghost before = out@;
            let mut col: usize = 0;
            while col < WIDTH
                invariant
                    col <= WIDTH,
                    line < HEIGHT,
                    out@ == before + self.row_squares(line as int, col as int),
                decreases WIDTH - col,
            {
                out.push(VERTICAL_SEPARATOR);
                match self.get(line, col) {
                    Some(p) => {
                        out.push(render_player(&p) as u8);
                    },
                    None => {
                        out.push(FILLER);
                    },
                }
                col = col + 1;
                assert(out@ =~= before + self.row_squares(line as int, col as int));
            }
            out.push(VERTICAL_SEPARATOR);
            out.push(LINE_END);
            out.extend_from_slice(interligne.as_slice());
            drawn = drawn + 1;
            assert(out@ =~= separator_line() + self.rows_text(drawn as int));
        }
        out.push(VERTICAL_SEPARATOR);
        let ghost rows = out@;
        assert(out@ =~= rows.drop_last() + column_letters(0));
        let mut idx: usize = 0;
        while idx < WIDTH
            invariant
                idx <= WIDTH,
                rows.len() > 0,
                out@ == rows.drop_last() + column_letters(idx as int),
            decreases WIDTH - idx,
        {
            out.push(letter(idx));
            out.push(VERTICAL_SEPARATOR);
            idx = idx + 1;
            assert(out@ =~= rows.drop_last() + column_letters(idx as int));
        }
        out.push(LINE_END);
        assert(out@ =~= self.spec_render());
        out
    }
}

} // verus!
