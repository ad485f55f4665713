use vstd::prelude::*;

use crate::board::{after_cross_toggle, after_fill_toggle, Board, CellState};
use crate::constraints::{seq_max, Constraints, MAX_ENTRIES};
use crate::cursor::{step_back, step_forward, Cursor};
use crate::error::PuzzleError;
use crate::parsing::{parse_file, puzzle_clues, text_lines};
use crate::render::{build_frame, frame_lines};

verus! {

/// A key press, as the game tells keys apart.
#[derive(Clone, Copy, Debug, PartialEq, Eq, Structural)]
pub enum Key {
    Up,
    Down,
    Left,
    Right,
    Fill,
    Cross,
    Quit,
    Other,
}

/// What the driver does after a key press.
#[derive(Clone, Copy, Debug, PartialEq, Eq, Structural)]
pub enum Action {
    /// Draw the frame again.
    Redraw,
    /// Nothing changed: wait for the next key.
    Ignore,
    /// Leave the game.
    Quit,
}

/// The characters of the row clue field: the widest row clue text and one
/// space before each clue of the row with the most clues.
pub open spec fn field_width(rows: Seq<Seq<u32>>) -> nat {
    seq_max(rows.map_values(|l: Seq<u32>| crate::constraints::digit_sum(l))) + seq_max(
        rows.map_values(|l: Seq<u32>| l.len()),
    )
}

/// The lines of the column clue header: as many as the most clues of a column.
pub open spec fn header_height(cols: Seq<Seq<u32>>) -> nat {
    seq_max(cols.map_values(|l: Seq<u32>| l.len()))
}

/// One puzzle being played: its clues, its grid of marks and the cursor.
pub struct Game {
    board: Board,
    v_constraints: Constraints,
    h_constraints: Constraints,
    dimensions: (usize, usize),
    cursor: Cursor,
}

impl Game {
    pub closed spec fn spec_board(&self) -> Board {
        self.board
    }

    pub closed spec fn spec_cursor(&self) -> Cursor {
        self.cursor
    }

    /// The column clues, one line per column.
    pub closed spec fn spec_columns(&self) -> Seq<Seq<u32>> {
        self.v_constraints.lines()
    }

    /// The row clues, one line per row.
    pub closed spec fn spec_rows(&self) -> Seq<Seq<u32>> {
        self.h_constraints.lines()
    }

    /// The parts are well formed and the stored dimensions are the grid's.
    pub closed spec fn parts_agree(&self) -> bool {
        &&& self.board.wf()
        &&& self.v_constraints.wf()
        &&& self.h_constraints.wf()
        &&& self.dimensions.0 == self.board.num_cols()
        &&& self.dimensions.1 == self.board.num_rows()
    }

    /// The grid has one column per column clue line and one row per row clue
    /// line, at least one of each, and the cursor lies on it.
    pub open spec fn wf(&self) -> bool {
        &&& self.parts_agree()
        &&& self.spec_board().num_cols() == self.spec_columns().len()
        &&& self.spec_board().num_rows() == self.spec_rows().len()
        &&& self.spec_board().num_cols() >= 1
        &&& self.spec_board().num_rows() >= 1
        &&& self.spec_columns().len() <= MAX_ENTRIES
        &&& self.spec_rows().len() <= MAX_ENTRIES
        &&& forall|i: int|
            0 <= i < self.spec_rows().len() ==> #[trigger] self.spec_rows()[i].len() <= MAX_ENTRIES
        &&& self.spec_cursor().wf()
        &&& self.spec_cursor().max_col() == self.spec_board().num_cols()
        &&& self.spec_cursor().max_row() == self.spec_board().num_rows()
    }

    /// Starts a game on the puzzle file `contents`: all cells blank and the
    /// cursor at (0, 0). Fails with `Format` where the file breaks the puzzle
    /// grammar or declares no column or no row.
    pub fn from_file(contents: &[u8]) -> (r: Result<Game, PuzzleError>)
        requires
            contents@.len() <= MAX_ENTRIES,
        ensures
            match puzzle_clues(text_lines(contents@)) {
                Some((v, h)) => if v.len() > 0 && h.len() > 0 {
                    &&& r is Ok
                    &&& r->Ok_0.wf()
                    &&& r->Ok_0.spec_columns() == v
                    &&& r->Ok_0.spec_rows() == h
                    &&& r->Ok_0.spec_cursor().col() == 0
                    &&& r->Ok_0.spec_cursor().row() == 0
                    &&& forall|c: int, w: int|
                        r->Ok_0.spec_board().in_bounds(c, w) ==> r->Ok_0.spec_board().cell(c, w)
                            == CellState::BLANK
                } else {
                    r == Err::<Game, PuzzleError>(PuzzleError::Format)
                },
                None => r == Err::<Game, PuzzleError>(PuzzleError::Format),
            },
    {
        let (v, h) = match parse_file(contents) {
            Ok(c) => c,
            Err(e) => {
                return Err(e);
            },
        };
        let dimensions = (v.get_size(), h.get_size());
        if dimensions.0 == 0 || dimensions.1 == 0 {
            return Err(PuzzleError::Format);
        }
        Ok(
            Game {
                board: Board::new(dimensions.0, dimensions.1),
                v_constraints: v,
                h_constraints: h,
                dimensions,
                cursor: Cursor::new(dimensions),
            },
        )
    }

    /// The grid of marks.
    pub fn board(&self) -> (b: &Board)
        ensures
            *b == self.spec_board(),
    {
        &self.board
    }

    /// The column clues.
    pub fn columns(&self) -> (t: &Constraints)
        ensures
            t.lines() == self.spec_columns(),
    {
        &self.v_constraints
    }

    /// The row clues.
    pub fn rows(&self) -> (t: &Constraints)
        ensures
            t.lines() == self.spec_rows(),
    {
        &self.h_constraints
    }

    /// The cursor.
    pub fn cursor(&self) -> (c: &Cursor)
        ensures
            *c == self.spec_cursor(),
    {
        &self.cursor
    }

    /// The width of the row clue field.
    pub fn clue_field_width(&self) -> (w: usize)
        requires
            self.wf(),
        ensures
            w == field_width(self.spec_rows()),
            w <= 11 * MAX_ENTRIES,
    {
        let (digits, _) = self.h_constraints.get_max_digits();
        let (len, _) = self.h_constraints.get_max_len();
        proof {
            assert(self.h_constraints.widths() =~= self.spec_rows().map_values(
                |l: Seq<u32>| crate::constraints::digit_sum(l),
            ));
            assert(self.h_constraints.counts() =~= self.spec_rows().map_values(
                |l: Seq<u32>| l.len(),
            ));
        }
        digits + len
    }

    /// The number of lines of the column clue header.
    pub fn clue_header_height(&self) -> (h: usize)
        requires
            self.wf(),
        ensures
            h == header_height(self.spec_columns()),
            h <= MAX_ENTRIES,
    {
        let (len, _) = self.v_constraints.get_max_len();
        assert(self.v_constraints.counts() =~= self.spec_columns().map_values(
            |l: Seq<u32>| l.len(),
        ));
        len
    }

    /// The terminal size, as (width, height), that shows the whole frame: the
    /// row clue panel (the clue field and one margin cell), three cells for
    /// each column and the right border; the header, the top border, two lines
    /// for each row and the bottom border.
    pub fn frame_size(&self) -> (s: (usize, usize))
        requires
            self.wf(),
        ensures
            s.0 == field_width(self.spec_rows()) + 1 + 3 * self.spec_board().num_cols() + 1,
            s.1 == header_height(self.spec_columns()) + 1 + 2 * self.spec_board().num_rows() + 1,
    {
        let w = self.clue_field_width();
        let h = self.clue_header_height();
        (w + 1 + 3 * self.dimensions.0 + 1, h + 1 + 2 * self.dimensions.1 + 1)
    }

    /// Where the cursor box's top-left corner goes, as (x, y), on a terminal
    /// `term_height` lines tall whose bottom the frame rests on: the box spans
    /// the rules and bars around the cursor's cell. `None` where that corner
    /// would lie above the terminal.
    pub fn cursor_origin(&self, term_height: usize) -> (r: Option<(usize, usize)>)
        requires
            self.wf(),
        ensures
            ({
                let field = field_width(self.spec_rows());
                let height = header_height(self.spec_columns());
                let frame_h = height + 2 * self.spec_board().num_rows() + 2;
                let y = term_height + height + 2 * self.spec_cursor().row() - frame_h;
                match r {
                    Some(p) => y >= 0 && p.1 == y && p.0 == field + 3 * self.spec_cursor().col(),
                    None => y < 0,
                }
            }),
    {
        let field = self.clue_field_width();
        let height = self.clue_header_height();
        let (_, frame_h) = self.frame_size();
        let (col, row) = self.cursor.position();
        let below: u128 = term_height as u128 + height as u128 + 2 * (row as u128);
        if below < frame_h as u128 {
            return None;
        }
        let y = below - frame_h as u128;
        Some((field + 3 * col, y as usize))
    }

    /// Every line of the current frame, top to bottom.
    pub fn frame(&self) -> (r: Vec<Vec<char>>)
        requires
            self.wf(),
        ensures
            r@.map_values(|l: Vec<char>| l@) == frame_lines(
                self.spec_board(),
                self.spec_columns(),
                self.spec_rows(),
                field_width(self.spec_rows()),
                header_height(self.spec_columns()),
            ),
    {
        let field = self.clue_field_width();
        let height = self.clue_header_height();
        build_frame(&self.board, &self.v_constraints, &self.h_constraints, field, height)
    }

    /// Acts on one key: the arrows move the cursor, `Fill` and `Cross` toggle
    /// the cell under it, and both ask for a redraw; `Quit` ends the game and
    /// any other key changes nothing.
    pub fn handle_key(&mut self, key: Key) -> (a: Action)
        requires
            old(self).wf(),
        ensures
            final(self).wf(),
            final(self).spec_columns() == old(self).spec_columns(),
            final(self).spec_rows() == old(self).spec_rows(),
            a == match key {
                Key::Quit => Action::Quit,
                Key::Other => Action::Ignore,
                _ => Action::Redraw,
            },
            ({
                let c0 = old(self).spec_cursor();
                let c1 = final(self).spec_cursor();
                let (x, y) = (c0.col(), c0.row());
                &&& c1.col() == match key {
                    Key::Left => step_back(x),
                    Key::Right => step_forward(x, c0.max_col()),
                    _ => x,
                }
                &&& c1.row() == match key {
                    Key::Up => step_back(y),
                    Key::Down => step_forward(y, c0.max_row()),
                    _ => y,
                }
            }),
            ({
                let b0 = old(self).spec_board();
                let b1 = final(self).spec_board();
                let (x, y) = (old(self).spec_cursor().col(), old(self).spec_cursor().row());
                &&& b1.num_cols() == b0.num_cols()
                &&& b1.num_rows() == b0.num_rows()
                &&& forall|c: int, r: int|
                    #![trigger b1.cell(c, r)]
                    b0.in_bounds(c, r) ==> b1.cell(c, r) == if c == x && r == y {
                        match key {
                            Key::Fill => after_fill_toggle(b0.cell(c, r)),
                            Key::Cross => after_cross_toggle(b0.cell(c, r)),
                            _ => b0.cell(c, r),
                        }
                    } else {
                        b0.cell(c, r)
                    }
            }),
    {
        match key {
            Key::Quit => Action::Quit,
            Key::Up => {
                self.cursor.move_up();
                Action::Redraw
            },
            Key::Down => {
                self.cursor.move_down();
                Action::Redraw
            },
            Key::Left => {
                self.cursor.move_left();
                Action::Redraw
            },
            Key::Right => {
                self.cursor.move_right();
                Action::Redraw
            },
            Key::Fill => {
                let p = self.cursor.position();
                self.board.toggle_fill_at(p);
                Action::Redraw
            },
            Key::Cross => {
                let p = self.cursor.position();
                self.board.toggle_cross_at(p);
                Action::Redraw
            },
            Key::Other => Action::Ignore,
        }
    }
}

} // verus!
