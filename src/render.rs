use vstd::prelude::*;

use crate::board::{Board, CellState};
use crate::constraints::{decimal, to_decimal, Constraints, MAX_ENTRIES};

verus! {

/// `n` copies of `c`.
pub open spec fn repeat(c: char, n: nat) -> Seq<char> {
    Seq::new(n, |_i: int| c)
}

/// `s` right-aligned in a field of `w` characters; longer text is kept whole.
pub open spec fn pad_left(s: Seq<char>, w: nat) -> Seq<char> {
    if s.len() < w {
        repeat(' ', (w - s.len()) as nat) + s
    } else {
        s
    }
}

/// A column clue right-aligned in its two-character slot.
pub open spec fn clue_cell(n: u32) -> Seq<char> {
    let d = decimal(n as nat);
    if d.len() < 2 {
        seq![' '] + d
    } else {
        d
    }
}

/// What the column with clue line `line` shows on line `i` of a header of
/// `height` lines: its clues sit at the bottom, the last one nearest the grid.
pub open spec fn header_cell(line: Seq<u32>, i: nat, height: nat) -> Seq<char> {
    if line.len() + i >= height {
        clue_cell(line[line.len() + i - height])
    } else {
        seq![' ', ' ']
    }
}

/// The slots of the first `n` columns on header line `i`, each closed by a bar.
pub open spec fn header_cells(cols: Seq<Seq<u32>>, i: nat, height: nat, n: nat) -> Seq<char>
    decreases n,
{
    if n == 0 {
        Seq::empty()
    } else {
        header_cells(cols, i, height, (n - 1) as nat) + header_cell(
            cols[n - 1],
            i,
            height,
        ).push('│')
    }
}

/// Line `i` of the column clue header.
pub open spec fn header_line(cols: Seq<Seq<u32>>, field: nat, height: nat, i: nat) -> Seq<char> {
    repeat(' ', field).push('│') + header_cells(cols, i, height, cols.len())
}

/// The first `n` clues of a row, each after one space.
pub open spec fn clue_text(line: Seq<u32>, n: nat) -> Seq<char>
    decreases n,
{
    if n == 0 {
        Seq::empty()
    } else {
        clue_text(line, (n - 1) as nat).push(' ') + decimal(line[n - 1] as nat)
    }
}

/// The two characters that show a cell.
pub open spec fn glyph(c: CellState) -> Seq<char> {
    match c {
        CellState::BLANK => seq![' ', ' '],
        CellState::FILLED => seq!['█', '█'],
        CellState::CROSSED => seq!['╳', '╳'],
    }
}

/// The bar after cell `j` of a row of `cols` cells: the border after the last,
/// a heavy one after every fifth, a light one elsewhere.
pub open spec fn cell_sep(j: nat, cols: nat) -> char {
    if j + 1 == cols {
        '┃'
    } else if (j + 1) % 5 == 0 {
        '┇'
    } else {
        '│'
    }
}

/// The first `n` cells of grid row `row`, each followed by its bar.
pub open spec fn cells_run(b: Board, row: nat, n: nat) -> Seq<char>
    decreases n,
{
    if n == 0 {
        Seq::empty()
    } else {
        cells_run(b, row, (n - 1) as nat) + glyph(b.cell(n - 1, row as int)).push(
            cell_sep((n - 1) as nat, b.num_cols()),
        )
    }
}

/// Grid row `row`: its clues right-aligned in the clue field, the left border
/// and the cells.
pub open spec fn cell_line(b: Board, line: Seq<u32>, field: nat, row: nat) -> Seq<char> {
    pad_left(clue_text(line, line.len()), field).push('┃') + cells_run(b, row, b.num_cols())
}

/// The glyphs of one horizontal rule: its left end, its segment, the joint
/// after every fifth column, the joint elsewhere, and its right end.
pub struct RuleStyle {
    pub left: char,
    pub seg: char,
    pub thick: char,
    pub thin: char,
    pub right: char,
}

/// The segments and joints of the first `n` columns of a rule.
pub open spec fn joints(s: RuleStyle, n: nat) -> Seq<char>
    decreases n,
{
    if n == 0 {
        Seq::empty()
    } else {
        joints(s, (n - 1) as nat) + seq![s.seg, s.seg, if n % 5 == 0 { s.thick } else { s.thin }]
    }
}

/// A horizontal rule across a grid of `cols` columns.
pub open spec fn rule_line(s: RuleStyle, field: nat, cols: nat) -> Seq<char> {
    repeat('─', field).push(s.left) + joints(s, (cols - 1) as nat) + seq![s.seg, s.seg, s.right]
}

pub open spec fn top_style() -> RuleStyle {
    RuleStyle { left: '╆', seg: '━', thick: '╈', thin: '┿', right: '┪' }
}

pub open spec fn bottom_style() -> RuleStyle {
    RuleStyle { left: '┺', seg: '━', thick: '┻', thin: '┷', right: '┛' }
}

/// The rule below grid row `row`: heavy below every fifth row.
pub open spec fn divider_style(row: nat) -> RuleStyle {
    if row % 5 == 4 {
        RuleStyle { left: '╊', seg: '┅', thick: '╋', thin: '┿', right: '┫' }
    } else {
        RuleStyle { left: '╂', seg: '─', thick: '╂', thin: '┼', right: '┨' }
    }
}

/// The header lines `0..n`.
pub open spec fn header_lines(cols: Seq<Seq<u32>>, field: nat, height: nat, n: nat) -> Seq<
    Seq<char>,
>
    decreases n,
{
    if n == 0 {
        Seq::empty()
    } else {
        header_lines(cols, field, height, (n - 1) as nat).push(
            header_line(cols, field, height, (n - 1) as nat),
        )
    }
}

/// The first `n` grid rows, with the rule between each two of them.
pub open spec fn grid_lines(b: Board, rows: Seq<Seq<u32>>, field: nat, n: nat) -> Seq<Seq<char>>
    decreases n,
{
    if n == 0 {
        Seq::empty()
    } else if n == 1 {
        seq![cell_line(b, rows[0], field, 0)]
    } else {
        grid_lines(b, rows, field, (n - 1) as nat).push(
            rule_line(divider_style((n - 2) as nat), field, b.num_cols()),
        ).push(cell_line(b, rows[n - 1], field, (n - 1) as nat))
    }
}

/// A whole frame: the column clue header of `height` lines, the top border,
/// the grid rows with their clues and the rules between them, and the bottom
/// border; the row clues sit in a field of `field` characters.
pub open spec fn frame_lines(
    b: Board,
    cols: Seq<Seq<u32>>,
    rows: Seq<Seq<u32>>,
    field: nat,
    height: nat,
) -> Seq<Seq<char>> {
    header_lines(cols, field, height, height).push(rule_line(top_style(), field, b.num_cols()))
        + grid_lines(b, rows, field, b.num_rows()).push(
        rule_line(bottom_style(), field, b.num_cols()),
    )
}

/// Appends `n` copies of `c`.
fn push_repeat(out: &mut Vec<char>, c: char, n: usize)
    ensures
        final(out)@ == old(out)@ + repeat(c, n as nat),
{
    let ghost start = out@;
    let mut i: usize = 0;
    while i < n
        invariant
            i <= n,
            out@ == start + repeat(c, i as nat),
        decreases n - i,
    {
        out.push(c);
        i = i + 1;
        assert(out@ =~= start + repeat(c, i as nat));
    }
}

/// Appends the characters of `s`.
fn push_all(out: &mut Vec<char>, s: &Vec<char>)
    ensures
        final(out)@ == old(out)@ + s@,
{
    let ghost start = out@;
    let mut i: usize = 0;
    while i < s.len()
        invariant
            i <= s@.len(),
            out@ == start + s@.subrange(0, i as int),
        decreases s@.len() - i,
    {
        out.push(s[i]);
        i = i + 1;
        assert(out@ =~= start + s@.subrange(0, i as int));
    }
    assert(s@.subrange(0, i as int) =~= s@);
}

/// Builds a horizontal rule across `cols` columns.
fn build_rule(s: &RuleStyle, field: usize, cols: usize) -> (r: Vec<char>)
    requires
        cols >= 1,
    ensures
        r@ == rule_line(*s, field as nat, cols as nat),
{
    let mut out: Vec<char> = Vec::new();
    push_repeat(&mut out, '─', field);
    out.push(s.left);
    let ghost head = out@;
    assert(head == repeat('─', field as nat).push(s.left));
    let mut j: usize = 0;
    while j < cols - 1
        invariant
            j <= cols - 1,
            out@ == head + joints(*s, j as nat),
        decreases cols - 1 - j,
    {
        out.push(s.seg);
        out.push(s.seg);
        j = j + 1;
        if j % 5 == 0 {
            out.push(s.thick);
        } else {
            out.push(s.thin);
        }
        assert(out@ =~= head + joints(*s, j as nat));
    }
    out.push(s.seg);
    out.push(s.seg);
    out.push(s.right);
    assert(out@ =~= rule_line(*s, field as nat, cols as nat));
    out
}

/// Builds header line `i` of the column clues.
fn build_header_line(cols: &Constraints, field: usize, height: usize, i: usize) -> (r: Vec<char>)
    requires
        cols.wf(),
        i < height,
    ensures
        r@ == header_line(cols.lines(), field as nat, height as nat, i as nat),
{
    let mut out: Vec<char> = Vec::new();
    push_repeat(&mut out, ' ', field);
    out.push('│');
    let ghost head = out@;
    let n = cols.get_size();
    let mut c: usize = 0;
    while c < n
        invariant
            cols.wf(),
            n == cols.lines().len(),
            c <= n,
            i < height,
            out@ == head + header_cells(cols.lines(), i as nat, height as nat, c as nat),
        decreases n - c,
    {
        let ghost before = out@;
        match cols.get(c) {
            Ok(line) => {
                let len = line.len();
                if len >= height - i {
                    let k = len - (height - i);
                    let d = to_decimal(line[k]);
                    if d.len() < 2 {
                        out.push(' ');
                    }
                    push_all(&mut out, &d);
                } else {
                    out.push(' ');
                    out.push(' ');
                }
            },
            Err(_) => {},
        }
        out.push('│');
        proof {
            let cell = header_cell(cols.lines()[c as int], i as nat, height as nat);
            assert(out@ =~= before + cell.push('│'));
        }
        c = c + 1;
    }
    out
}

/// Builds the clue text of a row: each clue after one space.
fn build_clue_text(line: &Vec<u32>) -> (r: Vec<char>)
    ensures
        r@ == clue_text(line@, line@.len()),
{
    let mut out: Vec<char> = Vec::new();
    let mut k: usize = 0;
    while k < line.len()
        invariant
            k <= line@.len(),
            out@ == clue_text(line@, k as nat),
        decreases line@.len() - k,
    {
        out.push(' ');
        let d = to_decimal(line[k]);
        push_all(&mut out, &d);
        k = k + 1;
    }
    out
}

/// Builds grid row `row` with its clues right-aligned in `field` characters.
fn build_cell_line(b: &Board, rows: &Constraints, field: usize, row: usize) -> (r: Vec<char>)
    requires
        b.wf(),
        rows.wf(),
        row < b.num_rows(),
        row < rows.lines().len(),
    ensures
        r@ == cell_line(*b, rows.lines()[row as int], field as nat, row as nat),
{
    let mut out: Vec<char> = Vec::new();
    match rows.get(row) {
        Ok(line) => {
            let text = build_clue_text(&line);
            if text.len() < field {
                push_repeat(&mut out, ' ', field - text.len());
            }
            push_all(&mut out, &text);
        },
        Err(_) => {},
    }
    out.push('┃');
    let ghost head = out@;
    let (_, ncols) = b.get_size();
    let mut j: usize = 0;
    while j < ncols
        invariant
            b.wf(),
            ncols == b.num_cols(),
            row < b.num_rows(),
            j <= ncols,
            out@ == head + cells_run(*b, row as nat, j as nat),
        decreases ncols - j,
    {
        let ghost before = out@;
        match b.get(j, row) {
            CellState::BLANK => {
                out.push(' ');
                out.push(' ');
            },
            CellState::FILLED => {
                out.push('█');
                out.push('█');
            },
            CellState::CROSSED => {
                out.push('╳');
                out.push('╳');
            },
        }
        if j + 1 == ncols {
            out.push('┃');
        } else if (j + 1) % 5 == 0 {
            out.push('┇');
        } else {
            out.push('│');
        }
        assert(out@ =~= before + glyph(b.cell(j as int, row as int)).push(
            cell_sep(j as nat, b.num_cols()),
        ));
        j = j + 1;
    }
    out
}

/// The style of the rule below grid row `row`.
fn divider_for(row: usize) -> (s: RuleStyle)
    ensures
        s == divider_style(row as nat),
{
    if row % 5 == 4 {
        RuleStyle { left: '╊', seg: '┅', thick: '╋', thin: '┿', right: '┫' }
    } else {
        RuleStyle { left: '╂', seg: '─', thick: '╂', thin: '┼', right: '┨' }
    }
}

/// Builds every line of a frame, top to bottom.
pub fn build_frame(b: &Board, cols: &Constraints, rows: &Constraints, field: usize, height: usize) -> (r:
    Vec<Vec<char>>)
    requires
        b.wf(),
        cols.wf(),
        rows.wf(),
        b.num_cols() >= 1,
        b.num_rows() >= 1,
        rows.lines().len() == b.num_rows(),
    ensures
        r@.map_values(|l: Vec<char>| l@) == frame_lines(
            *b,
            cols.lines(),
            rows.lines(),
            field as nat,
            height as nat,
        ),
{
    let (nrows, ncols) = b.get_size();
    let mut out: Vec<Vec<char>> = Vec::new();
    let mut i: usize = 0;
    while i < height
        invariant
            cols.wf(),
            i <= height,
            out@.map_values(|l: Vec<char>| l@) == header_lines(
                cols.lines(),
                field as nat,
                height as nat,
                i as nat,
            ),
        decreases height - i,
    {
        let line = build_header_line(cols, field, height, i);
        out.push(line);
        i = i + 1;
        assert(out@.map_values(|l: Vec<char>| l@) =~= header_lines(
            cols.lines(),
            field as nat,
            height as nat,
            i as nat,
        ));
    }
    let top = RuleStyle { left: '╆', seg: '━', thick: '╈', thin: '┿', right: '┪' };
    out.push(build_rule(&top, field, ncols));
    let ghost head = out@.map_values(|l: Vec<char>| l@);
    assert(head =~= header_lines(cols.lines(), field as nat, height as nat, height as nat).push(
        rule_line(top_style(), field as nat, b.num_cols()),
    ));
    let mut row: usize = 0;
    while row < nrows
        invariant
            b.wf(),
            rows.wf(),
            nrows == b.num_rows(),
            ncols == b.num_cols(),
            ncols >= 1,
            rows.lines().len() == nrows,
            row <= nrows,
            out@.map_values(|l: Vec<char>| l@) == head + grid_lines(
                *b,
                rows.lines(),
                field as nat,
                row as nat,
            ),
        decreases nrows - row,
    {
        let ghost g0 = grid_lines(*b, rows.lines(), field as nat, row as nat);
        let ghost v0 = out@;
        if row > 0 {
            let style = divider_for(row - 1);
            let rule = build_rule(&style, field, ncols);
            out.push(rule);
        }
        let ghost v1 = out@;
        let line = build_cell_line(b, rows, field, row);
        out.push(line);
        proof {
            let g1 = grid_lines(*b, rows.lines(), field as nat, (row + 1) as nat);
            if row > 0 {
                let r = rule_line(divider_style((row - 1) as nat), field as nat, b.num_cols());
                assert(v1.map_values(|l: Vec<char>| l@) =~= v0.map_values(|l: Vec<char>| l@).push(
                    r,
                ));
                assert(g1 == g0.push(r).push(line@));
            } else {
                assert(v1 == v0);
                assert(g1 == seq![line@]);
                assert(g0 =~= Seq::<Seq<char>>::empty());
            }
            assert(out@.map_values(|l: Vec<char>| l@) =~= v1.map_values(|l: Vec<char>| l@).push(
                line@,
            ));
            assert(out@.map_values(|l: Vec<char>| l@) =~= head + g1);
        }
        row = row + 1;
    }
    let bottom = RuleStyle { left: '┺', seg: '━', thick: '┻', thin: '┷', right: '┛' };
    let ghost v2 = out@;
    let last = build_rule(&bottom, field, ncols);
    out.push(last);
    assert(out@.map_values(|l: Vec<char>| l@) =~= v2.map_values(|l: Vec<char>| l@).push(last@));
    assert(out@.map_values(|l: Vec<char>| l@) =~= frame_lines(
        *b,
        cols.lines(),
        rows.lines(),
        field as nat,
        height as nat,
    ));
    out
}

} // verus!
