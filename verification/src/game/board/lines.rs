//! Lines of pawns: where they are looked for and how they are counted.
use vstd::prelude::*;

use crate::game::board::Board;
use crate::game::Player;
use crate::{HEIGHT, WIDTH};

verus! {

/// The four ways in which a line of squares can run across the board.
#[derive(Debug, Clone, Copy, PartialEq, Eq, Structural)]
pub enum Line {
    /// Along a row, towards higher columns.
    Horizontal,
    /// Along a column, towards higher rows.
    Vertical,
    /// Towards higher rows and higher columns.
    Rising,
    /// Towards lower rows and higher columns.
    Falling,
}

impl Line {
    /// Row of the square number `i` of a line that starts in `row`.
    pub open spec fn row_at(self, row: int, i: int) -> int {
        match self {
            Line::Horizontal => row,
            Line::Vertical => row + i,
            Line::Rising => row + i,
            Line::Falling => row - i,
        }
    }

    /// Column of the square number `i` of a line that starts in `col`.
    pub open spec fn col_at(self, col: int, i: int) -> int {
        match self {
            Line::Horizontal => col + i,
            Line::Vertical => col,
            Line::Rising => col + i,
            Line::Falling => col + i,
        }
    }

    /// The lowest row in which a line of `size` squares can start.
    ///
    /// A falling line starts at its highest square, so it needs `size - 1`
    /// rows below its start.
    pub open spec fn first_row(self, size: int) -> int {
        match self {
            Line::Falling => if size > 0 {
                size - 1
            } else {
                0
            },
            _ => 0,
        }
    }

    /// One past the highest row in which a line of `size` squares can start.
    pub open spec fn end_row(self, size: int) -> int {
        match self {
            Line::Horizontal => HEIGHT as int,
            Line::Vertical => HEIGHT - size + 1,
            Line::Rising => HEIGHT - size + 1,
            Line::Falling => HEIGHT as int,
        }
    }

    /// One past the highest column in which a line of `size` squares can start.
    pub open spec fn end_col(self, size: int) -> int {
        match self {
            Line::Vertical => WIDTH as int,
            _ => WIDTH - size + 1,
        }
    }
}

impl Board {
    /// Whether the `size` squares of the line that starts at a square all
    /// belong to `p`.
    pub open spec fn aligned(&self, p: Player, line: Line, row: int, col: int, size: int) -> bool {
        forall|i: int|
            0 <= i < size ==> self.cell(#[trigger] line.row_at(row, i), line.col_at(col, i))
                == Some(p)
    }

    /// Whether `p` holds a line of `size` squares somewhere it is looked for.
    pub open spec fn holds_line(&self, size: int, p: Player) -> bool {
        exists|line: Line, row: int, col: int|
            line.first_row(size) <= row < line.end_row(size) && 0 <= row && 0 <= col
                < line.end_col(size) && #[trigger] self.aligned(p, line, row, col, size)
    }

    /// Number of lines of `p` that start in `row`, in a column below `col_end`.
    pub open spec fn lines_in_row(
        &self,
        p: Player,
        line: Line,
        size: int,
        row: int,
        col_end: int,
    ) -> nat
        decreases col_end,
    {
        if col_end <= 0 {
            0
        } else {
            self.lines_in_row(p, line, size, row, col_end - 1) + if self.aligned(
                p,
                line,
                row,
                col_end - 1,
                size,
            ) {
                1nat
            } else {
                0nat
            }
        }
    }

    /// Number of lines of `p` that start in a row below `row_end`.
    pub open spec fn lines_in_rows(&self, p: Player, line: Line, size: int, row_end: int) -> nat
        decreases row_end,
    {
        if row_end <= line.first_row(size) || row_end <= 0 {
            0
        } else {
            self.lines_in_rows(p, line, size, row_end - 1) + self.lines_in_row(
                p,
                line,
                size,
                row_end - 1,
                line.end_col(size),
            )
        }
    }

    /// Number of lines of `size` squares of `p` that run one way.
    pub open spec fn lines(&self, p: Player, line: Line, size: int) -> nat {
        self.lines_in_rows(p, line, size, line.end_row(size))
    }

    /// Number of lines of `size` squares of `p` on the board, all four ways
    /// together.
    pub open spec fn alignments(&self, size: int, p: Player) -> nat {
        self.lines(p, Line::Horizontal, size) + self.lines(p, Line::Vertical, size) + self.lines(
            p,
            Line::Rising,
            size,
        ) + self.lines(p, Line::Falling, size)
    }

    /// Whether the line that starts at a square belongs to `p`.
    fn is_aligned(&self, p: Player, line: Line, row: usize, col: usize, size: usize) -> (out: bool)
        requires
            size <= HEIGHT,
            line.first_row(size as int) <= row < line.end_row(size as int),
            col < line.end_col(size as int),
        ensures
            out == self.aligned(p, line, row as int, col as int, size as int),
    {
        let mut check: bool = true;
        let mut idx: usize = 0;
        while idx < size
            invariant
                idx <= size <= HEIGHT,
                line.first_row(size as int) <= row < line.end_row(size as int),
                col < line.end_col(size as int),
                check == self.aligned(p, line, row as int, col as int, idx as int),
            decreases size - idx,
        {
            let r: usize = match line {
                Line::Horizontal => row,
                Line::Vertical => row + idx,
                Line::Rising => row + idx,
                Line::Falling => row - idx,
            };
            let c: usize = match line {
                Line::Vertical => col,
                _ => col + idx,
            };
            assert(r == line.row_at(row as int, idx as int));
            assert(c == line.col_at(col as int, idx as int));
            let owned = match self.get(r, c) {
                Some(q) => q == p,
                None => false,
            };
            check = check && owned;
            idx = idx + 1;
        }
        check
    }

    /// Count the lines of `size` squares of `p` that run one way.
    fn count_line(&self, size: usize, p: Player, line: Line) -> (out: usize)
        requires
            size <= HEIGHT,
        ensures
            out == self.lines(p, line, size as int),
            out <= 70,
    {
        let first_row: usize = match line {
            Line::Falling => if size > 0 {
                size - 1
            } else {
                0
            },
            _ => 0,
        };
        let end_row: usize = match line {
            Line::Horizontal => HEIGHT,
            Line::Falling => HEIGHT,
            _ => HEIGHT - size + 1,
        };
        let end_col: usize = match line {
            Line::Vertical => WIDTH,
            _ => WIDTH - size + 1,
        };
        let mut cnt: usize = 0;
        let mut row: usize = first_row;
        while row < end_row
            invariant
                size <= HEIGHT,
                first_row == line.first_row(size as int),
                end_row == line.end_row(size as int),
                end_col == line.end_col(size as int),
                first_row <= row <= end_row <= HEIGHT + 1,
                end_col <= WIDTH + 1,
                cnt == self.lines_in_rows(p, line, size as int, row as int),
                cnt <= 10 * row,
            decreases end_row - row,
        {
            let mut col: usize = 0;
            let ghost before = cnt;
            while col < end_col
                invariant
                    size <= HEIGHT,
                    first_row == line.first_row(size as int),
                    end_row == line.end_row(size as int),
                    end_col == line.end_col(size as int),
                    first_row <= row < end_row <= HEIGHT + 1,
                    col <= end_col <= WIDTH + 1,
                    cnt == before + self.lines_in_row(p, line, size as int, row as int, col as int),
                    cnt <= before + col,
                    before <= 10 * row,
                decreases end_col - col,
            {
                if self.is_aligned(p, line, row, col, size) {
                    cnt = cnt + 1;
                }
                col = col + 1;
            }
            row = row + 1;
        }
        cnt
    }

    /// Count the lines of `size` squares that `p` holds on the board.
    pub fn count_align(&self, size: usize, p: Player) -> (out: usize)
        requires
            size <= HEIGHT,
        ensures
            out == self.alignments(size as int, p),
    {
        let horizontal = self.count_line(size, p, Line::Horizontal);
        let vertical = self.count_line(size, p, Line::Vertical);
        let rising = self.count_line(size, p, Line::Rising);
        let falling = self.count_line(size, p, Line::Falling);
        horizontal + vertical + rising + falling
    }

    /// The squares of a line that is looked for lie on the board.
    pub proof fn line_stays_on_board(line: Line, size: int, row: int, col: int, i: int)
        requires
            0 <= size <= HEIGHT,
            line.first_row(size) <= row < line.end_row(size),
            0 <= col < line.end_col(size),
            0 <= i < size,
        ensures
            0 <= line.row_at(row, i) < HEIGHT,
            0 <= line.col_at(col, i) < WIDTH,
    {
    }

    proof fn counted_line_in_row(&self, p: Player, line: Line, size: int, row: int, col_end: int)
        ensures
            self.lines_in_row(p, line, size, row, col_end) > 0 <==> exists|col: int|
                0 <= col < col_end && #[trigger] self.aligned(p, line, row, col, size),
        decreases col_end,
    {
        if col_end > 0 {
            self.counted_line_in_row(p, line, size, row, col_end - 1);
            if self.lines_in_row(p, line, size, row, col_end) > 0 {
                if self.aligned(p, line, row, col_end - 1, size) {
                } else {
                    let col = choose|col: int|
                        0 <= col < col_end - 1 && #[trigger] self.aligned(p, line, row, col, size);
                    assert(0 <= col < col_end && self.aligned(p, line, row, col, size));
                }
            }
        }
    }

    proof fn counted_line_in_rows(&self, p: Player, line: Line, size: int, row_end: int)
        ensures
            self.lines_in_rows(p, line, size, row_end) > 0 <==> exists|row: int, col: int|
                line.first_row(size) <= row < row_end && 0 <= row && 0 <= col < line.end_col(size)
                    && #[trigger] self.aligned(p, line, row, col, size),
        decreases row_end,
    {
        if !(row_end <= line.first_row(size) || row_end <= 0) {
            self.counted_line_in_rows(p, line, size, row_end - 1);
            self.counted_line_in_row(p, line, size, row_end - 1, line.end_col(size));
            if self.lines_in_rows(p, line, size, row_end) > 0 {
                if self.lines_in_row(p, line, size, row_end - 1, line.end_col(size)) > 0 {
                    let col = choose|col: int|
                        0 <= col < line.end_col(size) && #[trigger] self.aligned(
                            p,
                            line,
                            row_end - 1,
                            col,
                            size,
                        );
                    assert(self.aligned(p, line, row_end - 1, col, size));
                } else {
                    let (row, col) = choose|row: int, col: int|
                        line.first_row(size) <= row < row_end - 1 && 0 <= row && 0 <= col
                            < line.end_col(size) && #[trigger] self.aligned(p, line, row, col, size);
                    assert(self.aligned(p, line, row, col, size));
                }
            }
        }
    }

    /// A player has lines to count exactly when it holds one.
    pub proof fn alignments_count_lines(&self, size: int, p: Player)
        ensures
            self.alignments(size, p) > 0 <==> self.holds_line(size, p),
    {
        self.counted_line_in_rows(p, Line::Horizontal, size, Line::Horizontal.end_row(size));
        self.counted_line_in_rows(p, Line::Vertical, size, Line::Vertical.end_row(size));
        self.counted_line_in_rows(p, Line::Rising, size, Line::Rising.end_row(size));
        self.counted_line_in_rows(p, Line::Falling, size, Line::Falling.end_row(size));
        if self.holds_line(size, p) {
            let (line, row, col) = choose|line: Line, row: int, col: int|
                line.first_row(size) <= row < line.end_row(size) && 0 <= row && 0 <= col
                    < line.end_col(size) && #[trigger] self.aligned(p, line, row, col, size);
            assert(self.lines(p, line, size) > 0);
        }
        if self.alignments(size, p) > 0 {
            let line = if self.lines(p, Line::Horizontal, size) > 0 {
                Line::Horizontal
            } else if self.lines(p, Line::Vertical, size) > 0 {
                Line::Vertical
            } else if self.lines(p, Line::Rising, size) > 0 {
                Line::Rising
            } else {
                Line::Falling
            };
            let (row, col) = choose|row: int, col: int|
                line.first_row(size) <= row < line.end_row(size) && 0 <= row && 0 <= col
                    < line.end_col(size) && #[trigger] self.aligned(p, line, row, col, size);
            assert(self.aligned(p, line, row, col, size));
        }
    }

    proof fn lines_in_row_bounded(&self, p: Player, line: Line, size: int, row: int, col_end: int)
        ensures
            self.lines_in_row(p, line, size, row, col_end) <= col_end || col_end <= 0,
            col_end <= 0 ==> self.lines_in_row(p, line, size, row, col_end) == 0,
        decreases col_end,
    {
        if col_end > 0 {
            self.lines_in_row_bounded(p, line, size, row, col_end - 1);
        }
    }

    proof fn lines_in_rows_bounded(&self, p: Player, line: Line, size: int, row_end: int)
        requires
            0 <= size <= HEIGHT,
            row_end <= HEIGHT + 1,
        ensures
            self.lines_in_rows(p, line, size, row_end) <= 10 * row_end || row_end <= 0,
            row_end <= 0 ==> self.lines_in_rows(p, line, size, row_end) == 0,
        decreases row_end,
    {
        if !(row_end <= line.first_row(size) || row_end <= 0) {
            self.lines_in_rows_bounded(p, line, size, row_end - 1);
            self.lines_in_row_bounded(p, line, size, row_end - 1, line.end_col(size));
        }
    }

    /// Lines of one kind are no more than the squares they can start from.
    proof fn lines_bounded(&self, p: Player, line: Line, size: int)
        requires
            0 <= size <= HEIGHT,
        ensures
            self.lines(p, line, size) <= 70,
    {
        self.lines_in_rows_bounded(p, line, size, line.end_row(size));
    }

    /// A player never holds more than 280 lines of a size.
    pub proof fn alignments_bounded(&self, size: int, p: Player)
        requires
            0 <= size <= HEIGHT,
        ensures
            self.alignments(size, p) <= 280,
    {
        self.lines_bounded(p, Line::Horizontal, size);
        self.lines_bounded(p, Line::Vertical, size);
        self.lines_bounded(p, Line::Rising, size);
        self.lines_bounded(p, Line::Falling, size);
    }

    proof fn aligned_with_cell(
        &self,
        r: int,
        c: int,
        q: Player,
        p: Player,
        line: Line,
        size: int,
        row: int,
        col: int,
    )
        requires
            0 <= r < HEIGHT,
            0 <= c < WIDTH,
            self.cell(r, c) is None,
            0 <= size <= HEIGHT,
            line.first_row(size) <= row < line.end_row(size),
            0 <= col < line.end_col(size),
        ensures
            self.aligned(p, line, row, col, size) ==> self.with_cell(r, c, q).aligned(
                p,
                line,
                row,
                col,
                size,
            ),
            p != q && self.with_cell(r, c, q).aligned(p, line, row, col, size) ==> self.aligned(
                p,
                line,
                row,
                col,
                size,
            ),
    {
        let after = self.with_cell(r, c, q);
        self.with_cell_cells(r, c, q);
        if self.aligned(p, line, row, col, size) {
            assert forall|i: int| 0 <= i < size implies after.cell(
                #[trigger] line.row_at(row, i),
                line.col_at(col, i),
            ) == Some(p) by {
                Self::line_stays_on_board(line, size, row, col, i);
                assert(self.cell(line.row_at(row, i), line.col_at(col, i)) == Some(p));
            }
        }
        if p != q && after.aligned(p, line, row, col, size) {
            assert forall|i: int| 0 <= i < size implies self.cell(
                #[trigger] line.row_at(row, i),
                line.col_at(col, i),
            ) == Some(p) by {
                Self::line_stays_on_board(line, size, row, col, i);
                assert(after.cell(line.row_at(row, i), line.col_at(col, i)) == Some(p));
            }
        }
    }

    proof fn lines_in_row_with_cell(
        &self,
        r: int,
        c: int,
        q: Player,
        p: Player,
        line: Line,
        size: int,
        row: int,
        col_end: int,
    )
        requires
            0 <= r < HEIGHT,
            0 <= c < WIDTH,
            self.cell(r, c) is None,
            0 <= size <= HEIGHT,
            line.first_row(size) <= row < line.end_row(size),
            col_end <= line.end_col(size),
        ensures
            self.lines_in_row(p, line, size, row, col_end) <= self.with_cell(r, c, q).lines_in_row(
                p,
                line,
                size,
                row,
                col_end,
            ),
            p != q ==> self.lines_in_row(p, line, size, row, col_end) == self.with_cell(
                r,
                c,
                q,
            ).lines_in_row(p, line, size, row, col_end),
        decreases col_end,
    {
        if col_end > 0 {
            self.lines_in_row_with_cell(r, c, q, p, line, size, row, col_end - 1);
            self.aligned_with_cell(r, c, q, p, line, size, row, col_end - 1);
        }
    }

    proof fn lines_in_rows_with_cell(
        &self,
        r: int,
        c: int,
        q: Player,
        p: Player,
        line: Line,
        size: int,
        row_end: int,
    )
        requires
            0 <= r < HEIGHT,
            0 <= c < WIDTH,
            self.cell(r, c) is None,
            0 <= size <= HEIGHT,
            row_end <= line.end_row(size),
        ensures
            self.lines_in_rows(p, line, size, row_end) <= self.with_cell(r, c, q).lines_in_rows(
                p,
                line,
                size,
                row_end,
            ),
            p != q ==> self.lines_in_rows(p, line, size, row_end) == self.with_cell(
                r,
                c,
                q,
            ).lines_in_rows(p, line, size, row_end),
        decreases row_end,
    {
        if !(row_end <= line.first_row(size) || row_end <= 0) {
            self.lines_in_rows_with_cell(r, c, q, p, line, size, row_end - 1);
            self.lines_in_row_with_cell(r, c, q, p, line, size, row_end - 1, line.end_col(size));
        }
    }

    /// A play takes no counted line from anybody, and gives none to the player
    /// who did not make it.
    pub proof fn applied_keeps_alignments(&self, col: int, q: Player, size: int, p: Player)
        requires
            0 <= col < WIDTH,
            !self.column_full(col),
            0 <= size <= HEIGHT,
        ensures
            self.alignments(size, p) <= self.applied(col, q).alignments(size, p),
            p != q ==> self.alignments(size, p) == self.applied(col, q).alignments(size, p),
    {
        self.landing_row_is_lowest_free(col);
        let r = self.landing_row(col);
        self.lines_in_rows_with_cell(r, col, q, p, Line::Horizontal, size, Line::Horizontal.end_row(size));
        self.lines_in_rows_with_cell(r, col, q, p, Line::Vertical, size, Line::Vertical.end_row(size));
        self.lines_in_rows_with_cell(r, col, q, p, Line::Rising, size, Line::Rising.end_row(size));
        self.lines_in_rows_with_cell(r, col, q, p, Line::Falling, size, Line::Falling.end_row(size));
    }

    /// A play takes no line from anybody, and gives none to the player who
    /// did not make it.
    pub proof fn applied_keeps_lines(&self, col: int, q: Player, size: int, p: Player)
        requires
            0 <= col < WIDTH,
            !self.column_full(col),
            0 <= size <= HEIGHT,
        ensures
            self.holds_line(size, p) ==> self.applied(col, q).holds_line(size, p),
            p != q ==> (self.holds_line(size, p) <==> self.applied(col, q).holds_line(size, p)),
    {
        self.applied_keeps_alignments(col, q, size, p);
        self.alignments_count_lines(size, p);
        self.applied(col, q).alignments_count_lines(size, p);
    }

    proof fn mirrored_lines_in_row(
        &self,
        other: Board,
        p: Player,
        line: Line,
        size: int,
        row: int,
        col_end: int,
    )
        requires
            self.mirrors(other),
            0 <= size <= HEIGHT,
            line.first_row(size) <= row < line.end_row(size),
            col_end <= line.end_col(size),
        ensures
            other.lines_in_row(p, line, size, row, col_end) == self.lines_in_row(
                p.spec_other(),
                line,
                size,
                row,
                col_end,
            ),
        decreases col_end,
    {
        if col_end > 0 {
            self.mirrored_lines_in_row(other, p, line, size, row, col_end - 1);
            let col = col_end - 1;
            let q = p.spec_other();
            if other.aligned(p, line, row, col, size) {
                assert forall|i: int| 0 <= i < size implies self.cell(
                    #[trigger] line.row_at(row, i),
                    line.col_at(col, i),
                ) == Some(q) by {
                    Self::line_stays_on_board(line, size, row, col, i);
                    assert(other.cell(line.row_at(row, i), line.col_at(col, i)) == Some(p));
                }
            }
            if self.aligned(q, line, row, col, size) {
                assert forall|i: int| 0 <= i < size implies other.cell(
                    #[trigger] line.row_at(row, i),
                    line.col_at(col, i),
                ) == Some(p) by {
                    Self::line_stays_on_board(line, size, row, col, i);
                    assert(self.cell(line.row_at(row, i), line.col_at(col, i)) == Some(q));
                }
            }
        }
    }

    proof fn mirrored_lines_in_rows(
        &self,
        other: Board,
        p: Player,
        line: Line,
        size: int,
        row_end: int,
    )
        requires
            self.mirrors(other),
            0 <= size <= HEIGHT,
            row_end <= line.end_row(size),
        ensures
            other.lines_in_rows(p, line, size, row_end) == self.lines_in_rows(
                p.spec_other(),
                line,
                size,
                row_end,
            ),
        decreases row_end,
    {
        if !(row_end <= line.first_row(size) || row_end <= 0) {
            self.mirrored_lines_in_rows(other, p, line, size, row_end - 1);
            self.mirrored_lines_in_row(other, p, line, size, row_end - 1, line.end_col(size));
        }
    }

    /// When the players change sides, each holds the lines that the other
    /// held.
    pub proof fn mirrored_alignments(&self, other: Board, size: int, p: Player)
        requires
            self.mirrors(other),
            0 <= size <= HEIGHT,
        ensures
            other.alignments(size, p) == self.alignments(size, p.spec_other()),
    {
        self.mirrored_lines_in_rows(other, p, Line::Horizontal, size, Line::Horizontal.end_row(size));
        self.mirrored_lines_in_rows(other, p, Line::Vertical, size, Line::Vertical.end_row(size));
        self.mirrored_lines_in_rows(other, p, Line::Rising, size, Line::Rising.end_row(size));
        self.mirrored_lines_in_rows(other, p, Line::Falling, size, Line::Falling.end_row(size));
    }
}

} // verus!
