use vstd::prelude::*;

verus! {

/// The mark a player has put on one cell of the grid.
#[derive(Clone, Copy, Debug, PartialEq, Eq, Structural)]
pub enum CellState {
    BLANK,
    FILLED,
    CROSSED,
}

/// What `toggle_fill_at` turns a cell into.
pub open spec fn after_fill_toggle(c: CellState) -> CellState {
    match c {
        CellState::FILLED => CellState::BLANK,
        _ => CellState::FILLED,
    }
}

/// What `toggle_cross_at` turns a cell into.
pub open spec fn after_cross_toggle(c: CellState) -> CellState {
    match c {
        CellState::CROSSED => CellState::BLANK,
        _ => CellState::CROSSED,
    }
}

/// A `cols` by `rows` matrix of cell marks, stored row by row.
pub struct Board {
    rows: usize,
    cols: usize,
    state: Vec<Vec<CellState>>,
}

impl Board {
    pub closed spec fn num_rows(&self) -> nat {
        self.rows as nat
    }

    pub closed spec fn num_cols(&self) -> nat {
        self.cols as nat
    }

    /// The mark of the cell in column `col` and row `row`.
    pub closed spec fn cell(&self, col: int, row: int) -> CellState {
        self.state@[row]@[col]
    }

    /// Every row holds exactly `cols` cells, and there are `rows` rows.
    pub closed spec fn wf(&self) -> bool {
        &&& self.state@.len() == self.rows
        &&& forall|r: int| 0 <= r < self.rows ==> #[trigger] self.state@[r]@.len() == self.cols
    }

    pub open spec fn in_bounds(&self, col: int, row: int) -> bool {
        0 <= col < self.num_cols() && 0 <= row < self.num_rows()
    }

    /// A grid of the given size whose cells are all blank.
    pub fn new(cols: usize, rows: usize) -> (b: Board)
        ensures
            b.wf(),
            b.num_cols() == cols,
            b.num_rows() == rows,
            forall|c: int, r: int| b.in_bounds(c, r) ==> b.cell(c, r) == CellState::BLANK,
    {
        let mut state: Vec<Vec<CellState>> = Vec::new();
        let mut i: usize = 0;
        while i < rows
            invariant
                i <= rows,
                state@.len() == i,
                forall|r: int| 0 <= r < i ==> #[trigger] state@[r]@.len() == cols,
                forall|r: int, c: int|
                    0 <= r < i && 0 <= c < cols ==> #[trigger] state@[r]@[c] == CellState::BLANK,
            decreases rows - i,
        {
            let mut line: Vec<CellState> = Vec::new();
            let mut j: usize = 0;
            while j < cols
                invariant
                    j <= cols,
                    line@.len() == j,
                    forall|c: int| 0 <= c < j ==> #[trigger] line@[c] == CellState::BLANK,
                decreases cols - j,
            {
                line.push(CellState::BLANK);
                j = j + 1;
            }
            state.push(line);
            i = i + 1;
        }
        Board { rows, cols, state }
    }

    /// The mark of the cell at (`col`, `row`).
    pub fn get(&self, col: usize, row: usize) -> (c: CellState)
        requires
            self.wf(),
            self.in_bounds(col as int, row as int),
        ensures
            c == self.cell(col as int, row as int),
    {
        self.state[row][col]
    }

    /// The grid's size as (rows, cols).
    pub fn get_size(&self) -> (s: (usize, usize))
        ensures
            s.0 == self.num_rows(),
            s.1 == self.num_cols(),
    {
        (self.rows, self.cols)
    }

    /// Puts `c` into the cell at (`col`, `row`).
    fn put(&mut self, col: usize, row: usize, c: CellState)
        requires
            old(self).wf(),
            old(self).in_bounds(col as int, row as int),
        ensures
            final(self).wf(),
            final(self).num_rows() == old(self).num_rows(),
            final(self).num_cols() == old(self).num_cols(),
            final(self).cell(col as int, row as int) == c,
            forall|x: int, y: int|
                final(self).in_bounds(x, y) && (x != col || y != row) ==> final(self).cell(x, y)
                    == old(self).cell(x, y),
    {
        let mut line: Vec<CellState> = Vec::new();
        self.state.set_and_swap(row, &mut line);
        line.set(col, c);
        self.state.set_and_swap(row, &mut line);
        assert(forall|r: int| 0 <= r < self.rows && r != row ==> self.state@[r] == old(self).state@[r]);
    }

    /// Fills the cell at `position` = (col, row), or blanks it if it was filled;
    /// a cross on it is lost.
    pub fn toggle_fill_at(&mut self, position: (usize, usize))
        requires
            old(self).wf(),
            old(self).in_bounds(position.0 as int, position.1 as int),
        ensures
            final(self).wf(),
            final(self).num_rows() == old(self).num_rows(),
            final(self).num_cols() == old(self).num_cols(),
            final(self).cell(position.0 as int, position.1 as int) == after_fill_toggle(
                old(self).cell(position.0 as int, position.1 as int),
            ),
            forall|x: int, y: int|
                final(self).in_bounds(x, y) && (x != position.0 || y != position.1)
                    ==> final(self).cell(x, y) == old(self).cell(x, y),
    {
        let (col, row) = position;
        let next = match self.get(col, row) {
            CellState::FILLED => CellState::BLANK,
            _ => CellState::FILLED,
        };
        self.put(col, row, next);
    }

    /// Crosses out the cell at `position` = (col, row), or blanks it if it was
    /// crossed; a fill on it is lost.
    pub fn toggle_cross_at(&mut self, position: (usize, usize))
        requires
            old(self).wf(),
            old(self).in_bounds(position.0 as int, position.1 as int),
        ensures
            final(self).wf(),
            final(self).num_rows() == old(self).num_rows(),
            final(self).num_cols() == old(self).num_cols(),
            final(self).cell(position.0 as int, position.1 as int) == after_cross_toggle(
                old(self).cell(position.0 as int, position.1 as int),
            ),
            forall|x: int, y: int|
                final(self).in_bounds(x, y) && (x != position.0 || y != position.1)
                    ==> final(self).cell(x, y) == old(self).cell(x, y),
    {
        let (col, row) = position;
        let next = match self.get(col, row) {
            CellState::CROSSED => CellState::BLANK,
            _ => CellState::CROSSED,
        };
        self.put(col, row, next);
    }
}

/// Toggling fill twice gives back a blank or a filled cell, while a crossed
/// cell becomes filled and then blank; toggling a cross behaves the same way
/// with the two marks swapped.
pub proof fn lemma_toggles_twice(c: CellState)
    ensures
        (after_fill_toggle(after_fill_toggle(c)) == c) <==> (c != CellState::CROSSED),
        c == CellState::CROSSED ==> after_fill_toggle(c) == CellState::FILLED,
        (after_cross_toggle(after_cross_toggle(c)) == c) <==> (c != CellState::FILLED),
        c == CellState::FILLED ==> after_cross_toggle(c) == CellState::CROSSED,
{
}

} // verus!
