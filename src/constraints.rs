use vstd::prelude::*;

use crate::error::PuzzleError;

verus! {

/// The most entries a table or one of its lines may hold; a larger `Vec`
/// could not fit in memory, and below it every width sum fits in `usize`.
pub const MAX_ENTRIES: usize = usize::MAX / 64;

/// The character of decimal digit `d`.
pub open spec fn digit_char(d: nat) -> char {
    ((48 + d) as u8) as char
}

/// The decimal representation of `n`, without leading zeros.
pub open spec fn decimal(n: nat) -> Seq<char>
    decreases n,
{
    if n < 10 {
        seq![digit_char(n)]
    } else {
        decimal(n / 10).push(digit_char(n % 10))
    }
}

/// The number of characters that the clues of `line` take when written in decimal.
pub open spec fn digit_sum(line: Seq<u32>) -> nat
    decreases line.len(),
{
    if line.len() == 0 {
        0
    } else {
        digit_sum(line.drop_last()) + decimal(line.last() as nat).len()
    }
}

/// `(value, index)` is the largest of `vals` and the first index that holds it;
/// `(0, 0)` for no values.
pub open spec fn first_max(vals: Seq<nat>, value: nat, index: nat) -> bool {
    if vals.len() == 0 {
        value == 0 && index == 0
    } else {
        &&& index < vals.len()
        &&& vals[index as int] == value
        &&& forall|i: int| 0 <= i < vals.len() ==> vals[i] <= value
        &&& forall|i: int| 0 <= i < index ==> vals[i] < value
    }
}

/// The largest of `vals`, or 0 for none.
pub open spec fn seq_max(vals: Seq<nat>) -> nat
    decreases vals.len(),
{
    if vals.len() == 0 {
        0
    } else {
        let m = seq_max(vals.drop_last());
        if vals.last() > m {
            vals.last()
        } else {
            m
        }
    }
}

proof fn lemma_seq_max(vals: Seq<nat>)
    ensures
        forall|i: int| 0 <= i < vals.len() ==> vals[i] <= seq_max(vals),
        vals.len() > 0 ==> exists|i: int| 0 <= i < vals.len() && vals[i] == seq_max(vals),
    decreases vals.len(),
{
    if vals.len() > 0 {
        let d = vals.drop_last();
        lemma_seq_max(d);
        assert(forall|i: int| 0 <= i < d.len() ==> vals[i] == d[i]);
        if vals.last() <= seq_max(d) && d.len() > 0 {
            let k = choose|k: int| 0 <= k < d.len() && d[k] == seq_max(d);
            assert(vals[k] == seq_max(vals));
        }
    }
}

/// The value that `first_max` picks is the largest of the values.
pub proof fn lemma_first_max_is_seq_max(vals: Seq<nat>, value: nat, index: nat)
    requires
        first_max(vals, value, index),
    ensures
        value == seq_max(vals),
{
    lemma_seq_max(vals);
    if vals.len() > 0 {
        let k = choose|k: int| 0 <= k < vals.len() && vals[k] == seq_max(vals);
        assert(vals[k] <= value);
    }
}

/// Writes `n` in decimal.
pub fn to_decimal(n: u32) -> (r: Vec<char>)
    ensures
        r@ == decimal(n as nat),
    decreases n,
{
    let d: u8 = (n % 10) as u8;
    let c: char = (48u8 + d) as char;
    if n < 10 {
        let mut r: Vec<char> = Vec::new();
        r.push(c);
        r
    } else {
        let mut r = to_decimal(n / 10);
        r.push(c);
        r
    }
}

proof fn lemma_decimal_len(n: nat)
    ensures
        1 <= decimal(n).len(),
        n < 10_000_000_000 ==> decimal(n).len() <= 10,
    decreases n,
{
    if n >= 10 {
        lemma_decimal_len(n / 10);
        if n < 10_000_000_000 {
            assert(n / 10 < 1_000_000_000);
            lemma_decimal_len_9(n / 10);
        }
    }
}

proof fn lemma_decimal_len_9(n: nat)
    requires
        n < 1_000_000_000,
    ensures
        decimal(n).len() <= 9,
{
    assert(decimal(n).len() <= 9) by {
        reveal_with_fuel(decimal, 10);
    }
}

proof fn lemma_digit_sum_bound(line: Seq<u32>)
    ensures
        digit_sum(line) <= 10 * line.len(),
    decreases line.len(),
{
    if line.len() > 0 {
        lemma_digit_sum_bound(line.drop_last());
        lemma_decimal_len(line.last() as nat);
    }
}

/// A table of clue lines, one for each row or each column of the grid.
pub struct Constraints {
    size: usize,
    constraints: Vec<Vec<u32>>,
}

impl Constraints {
    /// The clue lines, in index order.
    pub closed spec fn lines(&self) -> Seq<Seq<u32>> {
        self.constraints@.map_values(|v: Vec<u32>| v@)
    }

    /// The number of clues in each line.
    pub open spec fn counts(&self) -> Seq<nat> {
        self.lines().map_values(|l: Seq<u32>| l.len())
    }

    /// The decimal width of the clues of each line.
    pub open spec fn widths(&self) -> Seq<nat> {
        self.lines().map_values(|l: Seq<u32>| digit_sum(l))
    }

    /// The stored size is the number of lines.
    pub closed spec fn size_matches(&self) -> bool {
        self.size == self.constraints@.len()
    }

    /// The table holds no more lines, and no line more clues, than `MAX_ENTRIES`.
    pub open spec fn wf(&self) -> bool {
        &&& self.size_matches()
        &&& self.lines().len() <= MAX_ENTRIES
        &&& forall|i: int| 0 <= i < self.lines().len() ==> #[trigger] self.lines()[i].len() <= MAX_ENTRIES
    }

    /// A table of `size` empty clue lines.
    pub fn new(size: usize) -> (t: Constraints)
        requires
            size <= MAX_ENTRIES,
        ensures
            t.wf(),
            t.lines().len() == size,
            forall|i: int| 0 <= i < size ==> #[trigger] t.lines()[i].len() == 0,
    {
        let mut constraints: Vec<Vec<u32>> = Vec::new();
        let mut i: usize = 0;
        while i < size
            invariant
                i <= size,
                constraints@.len() == i,
                forall|j: int| 0 <= j < i ==> #[trigger] constraints@[j]@.len() == 0,
            decreases size - i,
        {
            constraints.push(Vec::new());
            i = i + 1;
        }
        Constraints { size, constraints }
    }

    /// Replaces the clue line at `index`; fails with `OutOfBounds` past the size.
    pub fn set(&mut self, index: usize, constraints: Vec<u32>) -> (r: Result<(), PuzzleError>)
        requires
            old(self).wf(),
            constraints@.len() <= MAX_ENTRIES,
        ensures
            final(self).wf(),
            index < old(self).lines().len() ==> r is Ok && final(self).lines() == old(
                self,
            ).lines().update(index as int, constraints@),
            index >= old(self).lines().len() ==> r == Err::<(), PuzzleError>(
                PuzzleError::OutOfBounds,
            ) && final(self).lines() == old(self).lines(),
    {
        if index < self.size {
            self.constraints.set(index, constraints);
            assert(self.lines() =~= old(self).lines().update(index as int, constraints@));
            Ok(())
        } else {
            Err(PuzzleError::OutOfBounds)
        }
    }


    /// A copy of the clue line at `index`; fails with `OutOfBounds` past the size.
    pub fn get(&self, index: usize) -> (r: Result<Vec<u32>, PuzzleError>)
        requires
            self.wf(),
        ensures
            index < self.lines().len() ==> r is Ok && r->Ok_0@ == self.lines()[index as int],
            index >= self.lines().len() ==> r == Err::<Vec<u32>, PuzzleError>(
                PuzzleError::OutOfBounds,
            ),
    {
        if index < self.size {
            let line = &self.constraints[index];
            let mut copy: Vec<u32> = Vec::new();
            let mut j: usize = 0;
            while j < line.len()
                invariant
                    j <= line@.len(),
                    copy@ == line@.subrange(0, j as int),
                decreases line@.len() - j,
            {
                copy.push(line[j]);
                j = j + 1;
                assert(copy@ =~= line@.subrange(0, j as int));
            }
            assert(copy@ =~= line@);
            Ok(copy)
        } else {
            Err(PuzzleError::OutOfBounds)
        }
    }

    /// The number of clue lines.
    pub fn get_size(&self) -> (n: usize)
        requires
            self.wf(),
        ensures
            n == self.lines().len(),
    {
        self.size
    }

    /// The number of clues of the longest line, and the first index of such a line.
    pub fn get_max_len(&self) -> (r: (usize, usize))
        requires
            self.wf(),
        ensures
            first_max(self.counts(), r.0 as nat, r.1 as nat),
            r.0 == seq_max(self.counts()),
            r.0 <= MAX_ENTRIES,
    {
        let mut max_len: usize = 0;
        let mut max_i: usize = 0;
        let mut i: usize = 0;
        while i < self.constraints.len()
            invariant
                self.wf(),
                i <= self.counts().len(),
                max_len <= MAX_ENTRIES,
                max_i <= i,
                i > 0 ==> max_i < i,
                i > 0 ==> self.counts()[max_i as int] == max_len,
                i == 0 ==> max_len == 0 && max_i == 0,
                forall|j: int| 0 <= j < i ==> self.counts()[j] <= max_len,
                forall|j: int| 0 <= j < max_i ==> self.counts()[j] < max_len,
            decreases self.counts().len() - i,
        {
            let n = self.constraints[i].len();
            assert(self.counts()[i as int] == n);
            if i == 0 || n > max_len {
                max_len = n;
                max_i = i;
            }
            i = i + 1;
        }
        proof {
            lemma_first_max_is_seq_max(self.counts(), max_len as nat, max_i as nat);
        }
        (max_len, max_i)
    }

    /// The decimal width of the widest line, and the first index of such a line.
    pub fn get_max_digits(&self) -> (r: (usize, usize))
        requires
            self.wf(),
        ensures
            first_max(self.widths(), r.0 as nat, r.1 as nat),
            r.0 == seq_max(self.widths()),
            r.0 <= 10 * MAX_ENTRIES,
    {
        let mut max_digits: usize = 0;
        let mut max_i: usize = 0;
        let mut i: usize = 0;
        while i < self.constraints.len()
            invariant
                self.wf(),
                i <= self.widths().len(),
                max_digits <= 10 * MAX_ENTRIES,
                max_i <= i,
                i > 0 ==> max_i < i,
                i > 0 ==> self.widths()[max_i as int] == max_digits,
                i == 0 ==> max_digits == 0 && max_i == 0,
                forall|j: int| 0 <= j < i ==> self.widths()[j] <= max_digits,
                forall|j: int| 0 <= j < max_i ==> self.widths()[j] < max_digits,
            decreases self.widths().len() - i,
        {
            let n = self.get_digits_at(i);
            if i == 0 || n > max_digits {
                max_digits = n;
                max_i = i;
            }
            i = i + 1;
        }
        proof {
            lemma_first_max_is_seq_max(self.widths(), max_digits as nat, max_i as nat);
        }
        (max_digits, max_i)
    }

    /// The number of clues of the line at `index`.
    pub fn get_len_at(&self, index: usize) -> (n: usize)
        requires
            self.wf(),
            index < self.lines().len(),
        ensures
            n == self.counts()[index as int],
    {
        self.constraints[index].len()
    }

    /// The decimal width of the clues of the line at `index`.
    pub fn get_digits_at(&self, index: usize) -> (n: usize)
        requires
            self.wf(),
            index < self.lines().len(),
        ensures
            n == self.widths()[index as int],
            n <= 10 * MAX_ENTRIES,
    {
        let line = &self.constraints[index];
        assert(line@ == self.lines()[index as int]);
        assert(line@.len() <= MAX_ENTRIES);
        let mut digits: usize = 0;
        let mut j: usize = 0;
        while j < line.len()
            invariant
                j <= line@.len(),
                line@.len() <= MAX_ENTRIES,
                digits == digit_sum(line@.subrange(0, j as int)),
                digits <= 10 * j,
            decreases line@.len() - j,
        {
            let w = to_decimal(line[j]).len();
            proof {
                let pre = line@.subrange(0, j as int + 1);
                assert(pre.drop_last() =~= line@.subrange(0, j as int));
                lemma_decimal_len(line@[j as int] as nat);
            }
            digits = digits + w;
            j = j + 1;
        }
        assert(line@.subrange(0, j as int) =~= line@);
        digits
    }
}

/// A table whose lines are all empty answers index 0 for both its longest
/// and its widest line, and for each the first index holding the maximum.
pub proof fn lemma_all_empty_gives_index_zero(t: &Constraints, len: (nat, nat), dig: (nat, nat))
    requires
        forall|i: int| 0 <= i < t.lines().len() ==> #[trigger] t.lines()[i].len() == 0,
        first_max(t.counts(), len.0, len.1),
        first_max(t.widths(), dig.0, dig.1),
    ensures
        len == (0nat, 0nat),
        dig == (0nat, 0nat),
{
    if t.lines().len() > 0 {
        assert(t.counts()[0] == 0);
        assert(t.widths()[0] == 0) by {
            assert(t.lines()[0].len() == 0);
        }
        assert(t.counts()[len.1 as int] == 0);
        assert(t.widths()[dig.1 as int] == 0) by {
            assert(t.lines()[dig.1 as int].len() == 0);
        }
    }
}

/// A line written by `set` at an index below the size is what `get` reads
/// back there, and the other lines keep their clues; at an index at or past
/// the size both `set` and `get` fail with `OutOfBounds`.
pub proof fn lemma_set_get_round_trip(
    before: Seq<Seq<u32>>,
    index: nat,
    clues: Seq<u32>,
)
    ensures
        index < before.len() ==> before.update(index as int, clues)[index as int] == clues,
        index < before.len() ==> before.update(index as int, clues).len() == before.len(),
        index < before.len() ==> forall|j: int|
            0 <= j < before.len() && j != index ==> #[trigger] before.update(index as int, clues)[j]
                == before[j],
{
}

} // verus!
