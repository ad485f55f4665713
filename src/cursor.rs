use vstd::prelude::*;

verus! {

/// One step up or left: one less, but never below zero.
pub open spec fn step_back(p: int) -> int {
    if p > 0 {
        p - 1
    } else {
        0
    }
}

/// One step down or right: one more, but never past `max - 1`.
pub open spec fn step_forward(p: int, max: int) -> int {
    if p < max - 1 {
        p + 1
    } else {
        p
    }
}

/// Where `n` steps back from `p` end.
pub open spec fn steps_back(p: int, n: nat) -> int
    decreases n,
{
    if n == 0 {
        p
    } else {
        steps_back(step_back(p), (n - 1) as nat)
    }
}

/// Where `n` steps forward from `p` end, on an axis of `max` positions.
pub open spec fn steps_forward(p: int, max: int, n: nat) -> int
    decreases n,
{
    if n == 0 {
        p
    } else {
        steps_forward(step_forward(p, max), max, (n - 1) as nat)
    }
}

/// A position on the grid that moves one cell at a time and stops at the edges.
pub struct Cursor {
    col: usize,
    row: usize,
    max_col: usize,
    max_row: usize,
}

impl Cursor {
    pub closed spec fn col(&self) -> int {
        self.col as int
    }

    pub closed spec fn row(&self) -> int {
        self.row as int
    }

    pub closed spec fn max_col(&self) -> int {
        self.max_col as int
    }

    pub closed spec fn max_row(&self) -> int {
        self.max_row as int
    }

    /// The position lies inside the grid.
    pub open spec fn wf(&self) -> bool {
        0 <= self.col() < self.max_col() && 0 <= self.row() < self.max_row()
    }

    /// A cursor at (0, 0) on a grid of `board_size` = (cols, rows).
    pub fn new(board_size: (usize, usize)) -> (c: Cursor)
        requires
            board_size.0 > 0,
            board_size.1 > 0,
        ensures
            c.wf(),
            c.col() == 0,
            c.row() == 0,
            c.max_col() == board_size.0,
            c.max_row() == board_size.1,
    {
        Cursor { col: 0, row: 0, max_col: board_size.0, max_row: board_size.1 }
    }

    /// Moves one row up, unless on the top row.
    pub fn move_up(&mut self)
        requires
            old(self).wf(),
        ensures
            final(self).wf(),
            final(self).row() == step_back(old(self).row()),
            final(self).col() == old(self).col(),
            final(self).max_col() == old(self).max_col(),
            final(self).max_row() == old(self).max_row(),
    {
        if self.row > 0 {
            self.row = self.row - 1;
        }
    }

    /// Moves one column left, unless on the first column.
    pub fn move_left(&mut self)
        requires
            old(self).wf(),
        ensures
            final(self).wf(),
            final(self).col() == step_back(old(self).col()),
            final(self).row() == old(self).row(),
            final(self).max_col() == old(self).max_col(),
            final(self).max_row() == old(self).max_row(),
    {
        if self.col > 0 {
            self.col = self.col - 1;
        }
    }

    /// Moves one row down, unless on the bottom row.
    pub fn move_down(&mut self)
        requires
            old(self).wf(),
        ensures
            final(self).wf(),
            final(self).row() == step_forward(old(self).row(), old(self).max_row()),
            final(self).col() == old(self).col(),
            final(self).max_col() == old(self).max_col(),
            final(self).max_row() == old(self).max_row(),
    {
        if self.row < self.max_row - 1 {
            self.row = self.row + 1;
        }
    }

    /// Moves one column right, unless on the last column.
    pub fn move_right(&mut self)
        requires
            old(self).wf(),
        ensures
            final(self).wf(),
            final(self).col() == step_forward(old(self).col(), old(self).max_col()),
            final(self).row() == old(self).row(),
            final(self).max_col() == old(self).max_col(),
            final(self).max_row() == old(self).max_row(),
    {
        if self.col < self.max_col - 1 {
            self.col = self.col + 1;
        }
    }

    /// The position as (col, row).
    pub fn position(&self) -> (p: (usize, usize))
        ensures
            p.0 == self.col(),
            p.1 == self.row(),
    {
        (self.col, self.row)
    }
}

/// Stepping back `n` times from `p >= 0` ends at `max(p - n, 0)`.
pub proof fn lemma_steps_back(p: int, n: nat)
    requires
        p >= 0,
    ensures
        steps_back(p, n) == if p >= n { p - n } else { 0 },
    decreases n,
{
    if n > 0 {
        lemma_steps_back(step_back(p), (n - 1) as nat);
    }
}

/// Stepping forward `n` times from `0 <= p < max` ends at `min(p + n, max - 1)`.
pub proof fn lemma_steps_forward(p: int, max: int, n: nat)
    requires
        0 <= p < max,
    ensures
        steps_forward(p, max, n) == if p + n <= max - 1 { p + n } else { max - 1 },
    decreases n,
{
    if n > 0 {
        lemma_steps_forward(step_forward(p, max), max, (n - 1) as nat);
    }
}

/// Moving up and left at least as many times as the cursor's row and column
/// leaves it at the origin, and moving down and right at least as many times
/// as it is away from the far edges leaves it at (max_col - 1, max_row - 1):
/// the cursor stops at the edges and never wraps.
pub proof fn lemma_moves_stop_at_edges(c: Cursor, n: nat)
    requires
        c.wf(),
    ensures
        n >= c.row() ==> steps_back(c.row(), n) == 0,
        n >= c.col() ==> steps_back(c.col(), n) == 0,
        n >= c.max_row() - 1 - c.row() ==> steps_forward(c.row(), c.max_row(), n) == c.max_row()
            - 1,
        n >= c.max_col() - 1 - c.col() ==> steps_forward(c.col(), c.max_col(), n) == c.max_col()
            - 1,
{
    lemma_steps_back(c.row(), n);
    lemma_steps_back(c.col(), n);
    lemma_steps_forward(c.row(), c.max_row(), n);
    lemma_steps_forward(c.col(), c.max_col(), n);
}

} // verus!
