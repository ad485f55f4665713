use vstd::prelude::*;

use crate::constraints::{Constraints, MAX_ENTRIES};
use crate::error::PuzzleError;

verus! {

pub const NEWLINE: u8 = 10;

pub const RETURN: u8 = 13;

/// `line` without one carriage return at its end.
pub open spec fn strip_cr(line: Seq<u8>) -> Seq<u8> {
    if line.len() > 0 && line.last() == RETURN {
        line.drop_last()
    } else {
        line
    }
}

/// The pieces of `b` between newlines, the last one possibly empty; a piece
/// that a newline ends loses a carriage return before it.
pub open spec fn split_newlines(b: Seq<u8>) -> Seq<Seq<u8>>
    decreases b.len(),
{
    if b.len() == 0 {
        seq![Seq::empty()]
    } else {
        let s = split_newlines(b.drop_last());
        if b.last() == NEWLINE {
            s.update(s.len() - 1, strip_cr(s.last())).push(Seq::empty())
        } else {
            s.update(s.len() - 1, s.last().push(b.last()))
        }
    }
}

/// The lines of a text: the pieces between newlines, where a final newline
/// ends the last line rather than starting an empty one.
pub open spec fn text_lines(b: Seq<u8>) -> Seq<Seq<u8>> {
    let s = split_newlines(b);
    if s.last().len() == 0 {
        s.drop_last()
    } else {
        s
    }
}

pub open spec fn is_digit(c: u8) -> bool {
    48 <= c <= 57
}

pub open spec fn all_digits(s: Seq<u8>) -> bool {
    forall|i: int| 0 <= i < s.len() ==> is_digit(#[trigger] s[i])
}

/// The number that the decimal digits `s` write.
pub open spec fn digits_value(s: Seq<u8>) -> nat
    decreases s.len(),
{
    if s.len() == 0 {
        0
    } else {
        10 * digits_value(s.drop_last()) + (s.last() - 48) as nat
    }
}

/// Space, tab, line feed, vertical tab, form feed or carriage return.
pub open spec fn is_space(c: u8) -> bool {
    c == 32 || (9 <= c <= 13)
}

/// The maximal runs of non-space bytes of `b`, in order.
pub open spec fn words(b: Seq<u8>) -> Seq<Seq<u8>>
    decreases b.len(),
{
    if b.len() == 0 {
        Seq::empty()
    } else {
        let w = words(b.drop_last());
        if is_space(b.last()) {
            w
        } else if b.len() >= 2 && !is_space(b[b.len() - 2]) {
            w.update(w.len() - 1, w.last().push(b.last()))
        } else {
            w.push(seq![b.last()])
        }
    }
}

/// The clues of a clue line: its words, each a decimal number that fits in `u32`.
pub open spec fn clue_line(line: Seq<u8>) -> Option<Seq<u32>> {
    let w = words(line);
    if forall|i: int|
        0 <= i < w.len() ==> all_digits(#[trigger] w[i]) && digits_value(w[i]) <= u32::MAX {
        Some(w.map_values(|t: Seq<u8>| digits_value(t) as u32))
    } else {
        None
    }
}

/// The count that a header line `<tag>(<count>):` declares.
pub open spec fn header_value(line: Seq<u8>, tag: u8) -> Option<nat> {
    let digits = line.subrange(2, line.len() - 2);
    if line.len() >= 5 && line[0] == tag && line[1] == 40 && line[line.len() - 2] == 41
        && line[line.len() - 1] == 58 && all_digits(digits) {
        Some(digits_value(digits))
    } else {
        None
    }
}

pub const TAG_V: u8 = 118;

pub const TAG_H: u8 = 104;

/// The clue lines `ls[start..start + n]`, when each of them is one.
pub open spec fn clue_section(ls: Seq<Seq<u8>>, start: int, n: int) -> Option<Seq<Seq<u32>>> {
    if forall|i: int| start <= i < start + n ==> (#[trigger] clue_line(ls[i])) is Some {
        Some(Seq::new(n as nat, |i: int| clue_line(ls[start + i])->Some_0))
    } else {
        None
    }
}

/// The column clues and the row clues of a puzzle given as lines: a header
/// `v(N):`, `N` clue lines, an empty line, a header `h(M):` and then exactly `M`
/// clue lines.
pub open spec fn puzzle_clues(ls: Seq<Seq<u8>>) -> Option<(Seq<Seq<u32>>, Seq<Seq<u32>>)> {
    if ls.len() == 0 {
        None
    } else {
        match header_value(ls[0], TAG_V) {
            None => None,
            Some(n) => if ls.len() < n + 3 || ls[n + 1int].len() != 0 {
                None
            } else {
                match header_value(ls[n + 2int], TAG_H) {
                    None => None,
                    Some(m) => if ls.len() != n + 3 + m {
                        None
                    } else {
                        match (clue_section(ls, 1, n as int), clue_section(ls, n + 3int, m as int)) {
                            (Some(v), Some(h)) => Some((v, h)),
                            _ => None,
                        }
                    },
                }
            },
        }
    }
}

/// The views of a sequence of byte vectors.
pub open spec fn views(v: Seq<Vec<u8>>) -> Seq<Seq<u8>> {
    v.map_values(|l: Vec<u8>| l@)
}

/// Splits a text into its lines.
pub fn split_lines(contents: &[u8]) -> (r: Vec<Vec<u8>>)
    ensures
        views(r@) == text_lines(contents@),
        r@.len() <= contents@.len(),
        forall|k: int| 0 <= k < r@.len() ==> #[trigger] r@[k]@.len() <= contents@.len(),
{
    let mut done: Vec<Vec<u8>> = Vec::new();
    let mut cur: Vec<u8> = Vec::new();
    let mut i: usize = 0;
    assert(contents@.subrange(0, 0) =~= Seq::<u8>::empty());
    assert(views(done@).push(cur@) =~= seq![Seq::<u8>::empty()]);
    while i < contents.len()
        invariant
            i <= contents@.len(),
            split_newlines(contents@.subrange(0, i as int)) == views(done@).push(cur@),
            done@.len() + cur@.len() <= i,
            forall|k: int| 0 <= k < done@.len() ==> #[trigger] done@[k]@.len() <= i,
        decreases contents@.len() - i,
    {
        let c = contents[i];
        proof {
            let pre = contents@.subrange(0, i as int + 1);
            assert(pre.drop_last() =~= contents@.subrange(0, i as int));
            assert(pre.last() == c);
        }
        if c == NEWLINE {
            let ghost before = cur@;
            let ghost done_before = done@;
            if cur.len() > 0 && cur[cur.len() - 1] == RETURN {
                cur.pop();
            }
            assert(cur@ == strip_cr(before));
            let mut line: Vec<u8> = Vec::new();
            std::mem::swap(&mut line, &mut cur);
            done.push(line);
            assert(views(done@).push(cur@) =~= views(done_before).push(strip_cr(before)).push(
                Seq::empty(),
            ));
        } else {
            cur.push(c);
        }
        i = i + 1;
    }
    assert(contents@.subrange(0, i as int) =~= contents@);
    if cur.len() > 0 {
        done.push(cur);
    }
    done
}

proof fn lemma_value_of_prefix(s: Seq<u8>, k: int)
    requires
        all_digits(s),
        0 <= k <= s.len(),
    ensures
        digits_value(s.subrange(0, k)) <= digits_value(s),
    decreases s.len(),
{
    if k < s.len() {
        assert(s.drop_last().subrange(0, k) =~= s.subrange(0, k));
        lemma_value_of_prefix(s.drop_last(), k);
    } else {
        assert(s.subrange(0, k) =~= s);
    }
}

/// Reads the decimal number `s[start..end]`, when it is one and at most `limit`.
fn parse_number(s: &Vec<u8>, start: usize, end: usize, limit: u64) -> (r: Option<u64>)
    requires
        start <= end <= s@.len(),
    ensures
        ({
            let t = s@.subrange(start as int, end as int);
            match r {
                Some(v) => t.len() > 0 && all_digits(t) && v == digits_value(t) && v <= limit,
                None => !(t.len() > 0 && all_digits(t) && digits_value(t) <= limit),
            }
        }),
{
    let ghost t = s@.subrange(start as int, end as int);
    if start == end {
        return None;
    }
    let mut acc: u64 = 0;
    let mut i: usize = start;
    while i < end
        invariant
            start <= i <= end <= s@.len(),
            t == s@.subrange(start as int, end as int),
            all_digits(s@.subrange(start as int, i as int)),
            acc == digits_value(s@.subrange(start as int, i as int)),
            acc <= limit,
        decreases end - i,
    {
        let c = s[i];
        if c < 48 || c > 57 {
            assert(t[i - start] == c);
            return None;
        }
        let next: u128 = (acc as u128) * 10 + ((c - 48) as u128);
        proof {
            let p = s@.subrange(start as int, i as int + 1);
            assert(p.drop_last() =~= s@.subrange(start as int, i as int));
            assert(all_digits(p));
            assert(next == digits_value(p));
        }
        if next > limit as u128 {
            proof {
                if all_digits(t) {
                    assert(t.subrange(0, i + 1 - start) =~= s@.subrange(start as int, i as int + 1));
                    lemma_value_of_prefix(t, i + 1 - start);
                }
            }
            return None;
        }
        acc = next as u64;
        i = i + 1;
    }
    Some(acc)
}

/// A word of a clue line is a decimal number that fits in `u32`.
pub open spec fn valid_clue(t: Seq<u8>) -> bool {
    all_digits(t) && digits_value(t) <= u32::MAX
}

/// What a scan of `line[..n]` knows: the words closed so far are read into
/// `out` (`bad` when one of them is no clue), and an open word starts at `start`.
pub open spec fn scanned(
    line: Seq<u8>,
    n: int,
    in_word: bool,
    start: int,
    out: Seq<u32>,
    bad: bool,
) -> bool {
    let w = words(line.subrange(0, n));
    let closed = if in_word { w.len() - 1 } else { w.len() as int };
    &&& 0 <= n <= line.len()
    &&& in_word <==> (n > 0 && !is_space(line[n - 1]))
    &&& in_word ==> 0 <= start < n && w.len() > 0 && w.last() == line.subrange(start, n)
    &&& out.len() == closed
    &&& out.len() + (if in_word { 1int } else { 0 }) <= n
    &&& !bad ==> forall|j: int|
        0 <= j < closed ==> valid_clue(#[trigger] w[j]) && out[j] == digits_value(w[j])
    &&& bad ==> exists|j: int| 0 <= j < closed && !valid_clue(#[trigger] w[j])
}

/// Reads the clues of one clue line.
pub fn parse_clues(line: &Vec<u8>) -> (r: Option<Vec<u32>>)
    ensures
        r is Some <==> clue_line(line@) is Some,
        r is Some ==> r->Some_0@ == clue_line(line@)->Some_0,
        r is Some ==> r->Some_0@.len() <= line@.len(),
{
    let mut out: Vec<u32> = Vec::new();
    let mut bad: bool = false;
    let mut in_word: bool = false;
    let mut start: usize = 0;
    let mut i: usize = 0;
    assert(line@.subrange(0, 0) =~= Seq::<u8>::empty());
    while i < line.len()
        invariant
            scanned(line@, i as int, in_word, start as int, out@, bad),
        decreases line@.len() - i,
    {
        let ghost w0 = words(line@.subrange(0, i as int));
        let c = line[i];
        let at_space = c == 32 || (9 <= c && c <= 13);
        let ghost was_in_word = in_word;
        if at_space && in_word {
            match parse_number(line, start, i, 4294967295u64) {
                Some(x) => out.push(x as u32),
                None => {
                    out.push(0);
                    bad = true;
                },
            }
            in_word = false;
        } else if !at_space && !in_word {
            in_word = true;
            start = i;
        }
        proof {
            let p = line@.subrange(0, i as int + 1);
            assert(p.drop_last() =~= line@.subrange(0, i as int));
            assert(p.last() == line@[i as int]);
            if i > 0 {
                assert(p[i - 1] == line@[i - 1]);
            }
            let w1 = words(p);
            if !at_space && was_in_word {
                assert(line@.subrange(start as int, i as int + 1) =~= line@.subrange(
                    start as int,
                    i as int,
                ).push(line@[i as int]));
            }
            if !at_space && !was_in_word {
                assert(line@.subrange(start as int, i as int + 1) =~= seq![line@[i as int]]);
            }
            assert(forall|j: int| 0 <= j < w0.len() - 1 ==> w1[j] == w0[j]);
            assert(forall|j: int| 0 <= j < w0.len() && !(was_in_word && !at_space) ==> w1[j] == w0[j]);
        }
        i = i + 1;
    }
    if in_word {
        match parse_number(line, start, i, 4294967295u64) {
            Some(x) => out.push(x as u32),
            None => {
                out.push(0);
                bad = true;
            },
        }
    }
    assert(line@.subrange(0, line@.len() as int) =~= line@);
    if bad {
        None
    } else {
        assert(out@ =~= words(line@).map_values(|t: Seq<u8>| digits_value(t) as u32));
        Some(out)
    }
}

/// Reads the count of a header line `<tag>(<count>):`, when it fits in `usize`.
fn parse_header(line: &Vec<u8>, tag: u8) -> (r: Option<usize>)
    ensures
        match r {
            Some(v) => header_value(line@, tag) == Some(v as nat),
            None => match header_value(line@, tag) {
                Some(v) => v > usize::MAX,
                None => true,
            },
        },
{
    let len = line.len();
    if len < 5 || line[0] != tag || line[1] != 40 || line[len - 2] != 41 || line[len - 1] != 58 {
        return None;
    }
    match parse_number(line, 2, len - 2, usize::MAX as u64) {
        Some(v) => Some(v as usize),
        None => None,
    }
}

/// Reads the `n` clue lines that start at `lines[start]` into a table.
fn read_section(lines: &Vec<Vec<u8>>, start: usize, n: usize) -> (r: Option<Constraints>)
    requires
        start + n <= lines@.len(),
        n <= MAX_ENTRIES,
        forall|k: int| 0 <= k < lines@.len() ==> #[trigger] lines@[k]@.len() <= MAX_ENTRIES,
    ensures
        match clue_section(views(lines@), start as int, n as int) {
            Some(c) => r is Some && r->Some_0.wf() && r->Some_0.lines() == c,
            None => r is None,
        },
{
    let ghost ls = views(lines@);
    let mut t = Constraints::new(n);
    let mut k: usize = 0;
    while k < n
        invariant
            start + n <= lines.len(),
            ls == views(lines@),
            forall|q: int| 0 <= q < lines@.len() ==> #[trigger] lines@[q]@.len() <= MAX_ENTRIES,
            k <= n,
            t.wf(),
            t.lines().len() == n,
            forall|j: int|
                0 <= j < k ==> (#[trigger] clue_line(ls[start + j])) is Some && t.lines()[j]
                    == clue_line(ls[start + j])->Some_0,
        decreases n - k,
    {
        let line = &lines[start + k];
        assert(ls[start + k] == line@);
        match parse_clues(line) {
            None => {
                assert(clue_line(ls[start + k]) is None);
                return None;
            },
            Some(clues) => {
                let _ = t.set(k, clues);
            },
        }
        k = k + 1;
    }
    proof {
        let c = Seq::new(n as nat, |i: int| clue_line(ls[start + i])->Some_0);
        assert(forall|i: int| start <= i < start + n ==> (#[trigger] clue_line(ls[i])) is Some) by {
            assert forall|i: int| start <= i < start + n implies (#[trigger] clue_line(ls[i])) is Some by {
                assert(clue_line(ls[start + (i - start)]) is Some);
            }
        }
        assert(t.lines() =~= c);
    }
    Some(t)
}

/// Reads a puzzle file: the column clues and the row clues, in that order.
pub fn parse_file(contents: &[u8]) -> (r: Result<(Constraints, Constraints), PuzzleError>)
    requires
        contents@.len() <= MAX_ENTRIES,
    ensures
        match puzzle_clues(text_lines(contents@)) {
            Some((v, h)) => r is Ok && r->Ok_0.0.wf() && r->Ok_0.1.wf() && r->Ok_0.0.lines() == v
                && r->Ok_0.1.lines() == h,
            None => r == Err::<(Constraints, Constraints), PuzzleError>(PuzzleError::Format),
        },
{
    let lines = split_lines(contents);
    let ghost ls = text_lines(contents@);
    assert(views(lines@) == ls);
    if lines.len() == 0 {
        return Err(PuzzleError::Format);
    }
    let n = match parse_header(&lines[0], TAG_V) {
        Some(n) => n,
        None => {
            return Err(PuzzleError::Format);
        },
    };
    if lines.len() < 3 || n > lines.len() - 3 {
        return Err(PuzzleError::Format);
    }
    if lines[n + 1].len() != 0 {
        return Err(PuzzleError::Format);
    }
    let m = match parse_header(&lines[n + 2], TAG_H) {
        Some(m) => m,
        None => {
            return Err(PuzzleError::Format);
        },
    };
    if m != lines.len() - 3 - n {
        return Err(PuzzleError::Format);
    }
    let v = match read_section(&lines, 1, n) {
        Some(v) => v,
        None => {
            return Err(PuzzleError::Format);
        },
    };
    let h = match read_section(&lines, n + 3, m) {
        Some(h) => h,
        None => {
            return Err(PuzzleError::Format);
        },
    };
    Ok((v, h))
}

/// A puzzle is refused when its first line is no `v(N):` header, when the
/// `N` column clue lines are not followed by an empty line and an `h(M):`
/// header, or when not exactly `M` row clue lines follow that header.
pub proof fn lemma_malformed_puzzle_refused(ls: Seq<Seq<u8>>)
    ensures
        ls.len() == 0 || header_value(ls[0], TAG_V) is None ==> puzzle_clues(ls) is None,
        ls.len() > 0 && header_value(ls[0], TAG_V) is Some ==> ({
            let n = header_value(ls[0], TAG_V)->Some_0;
            ls.len() < n + 3 || ls[n + 1int].len() != 0 || header_value(ls[n + 2int], TAG_H) is None
                ==> puzzle_clues(ls) is None
        }),
        ls.len() > 0 && header_value(ls[0], TAG_V) is Some ==> ({
            let n = header_value(ls[0], TAG_V)->Some_0;
            ls.len() >= n + 3 && header_value(ls[n + 2int], TAG_H) is Some && ls.len() != n + 3
                + header_value(ls[n + 2int], TAG_H)->Some_0 ==> puzzle_clues(ls) is None
        }),
{
}

} // verus!
