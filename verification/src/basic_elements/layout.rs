//! The text grid: cells of a fixed width, long texts wrapped over lines.

use vstd::prelude::*;
use crate::text::{chars_of, push_repeated, repeated};

verus! {

/// The number of characters a cell holds on one line.
pub const COLUMN_WIDTH: usize = 30;

/// The number of lines that a text of `len` characters takes in a cell:
/// one line for every full or started width, and one for an empty text.
pub open spec fn lines_of(len: nat) -> nat {
    if len <= COLUMN_WIDTH {
        1
    } else {
        ((len - 1) / (COLUMN_WIDTH as int) + 1) as nat
    }
}

/// The number of lines that a row of `cells` takes: that of its longest
/// cell, and one for a row without cells.
pub open spec fn max_lines(cells: Seq<Seq<char>>) -> nat
    decreases cells.len(),
{
    if cells.len() == 0 {
        1
    } else {
        let rest = max_lines(cells.drop_last());
        let last = lines_of(cells.last().len());
        if last > rest {
            last
        } else {
            rest
        }
    }
}

/// What a cell shows on line `k` of its row: the `k`-th run of
/// `COLUMN_WIDTH` characters of its text, filled up with spaces.
pub open spec fn chunk(cell: Seq<char>, k: nat) -> Seq<char> {
    let from = if k * COLUMN_WIDTH <= cell.len() {
        k * COLUMN_WIDTH
    } else {
        cell.len() as int
    };
    let to = if from + COLUMN_WIDTH <= cell.len() {
        from + COLUMN_WIDTH
    } else {
        cell.len() as int
    };
    cell.subrange(from, to) + repeated(' ', (COLUMN_WIDTH - (to - from)) as nat)
}

/// Line `k` of a row: for each cell a space, what the cell shows on that
/// line, and a bar.
pub open spec fn line(cells: Seq<Seq<char>>, k: nat) -> Seq<char>
    decreases cells.len(),
{
    if cells.len() == 0 {
        Seq::empty()
    } else {
        line(cells.drop_last(), k) + seq![' '] + chunk(cells.last(), k) + seq!['|']
    }
}

/// The first `n` lines of a row, with a line break between them.
pub open spec fn block(cells: Seq<Seq<char>>, n: nat) -> Seq<char>
    decreases n,
{
    if n == 0 {
        Seq::empty()
    } else if n == 1 {
        line(cells, 0)
    } else {
        block(cells, (n - 1) as nat) + seq!['\n'] + line(cells, (n - 1) as nat)
    }
}

/// A row as text: as many lines as its longest cell takes.
pub open spec fn row_text(cells: Seq<Seq<char>>) -> Seq<char> {
    block(cells, max_lines(cells))
}

/// The width of every line of a row of `columns` cells.
pub open spec fn line_width(columns: nat) -> nat {
    columns * (COLUMN_WIDTH + 2) as nat
}

/// A rule under a row of `columns` cells: `c` over the width of a line.
pub open spec fn rule(c: char, columns: nat) -> Seq<char> {
    repeated(c, line_width(columns))
}

/// Every cell shows exactly `COLUMN_WIDTH` characters on every line.
pub proof fn law_cell_width(cell: Seq<char>, k: nat)
    ensures
        chunk(cell, k).len() == COLUMN_WIDTH,
{
}

/// A text longer than a cell is wide takes as many lines as it has full
/// or started widths: the last of them is not empty, and there is room
/// for all of it.
pub proof fn law_lines_of_long_text(len: nat)
    requires
        len > COLUMN_WIDTH,
    ensures
        lines_of(len) >= 2,
        (lines_of(len) - 1) * COLUMN_WIDTH < len <= lines_of(len) * COLUMN_WIDTH,
{
}

/// Wrapping loses no character and moves none: character `p` of a text
/// stands on line `p / COLUMN_WIDTH` of its cell, at place
/// `p % COLUMN_WIDTH`, and that line is one of the lines the text takes.
pub proof fn law_wrap_keeps_every_character(cell: Seq<char>, p: int)
    requires
        0 <= p < cell.len(),
    ensures
        p / (COLUMN_WIDTH as int) < lines_of(cell.len()),
        chunk(cell, (p / (COLUMN_WIDTH as int)) as nat)[p % (COLUMN_WIDTH as int)] == cell[p],
{
}

/// What a cell shows behind the end of its text is spaces.
pub proof fn law_wrap_fills_with_spaces(cell: Seq<char>, k: nat, q: int)
    requires
        0 <= q < COLUMN_WIDTH,
        k * COLUMN_WIDTH + q >= cell.len(),
    ensures
        chunk(cell, k)[q] == ' ',
{
}

/// Every line of a row has the same width, whatever the cells hold.
pub proof fn law_line_width(cells: Seq<Seq<char>>, k: nat)
    ensures
        line(cells, k).len() == line_width(cells.len()),
    decreases cells.len(),
{
    if cells.len() > 0 {
        law_line_width(cells.drop_last(), k);
        law_cell_width(cells.last(), k);
        assert(line(cells, k).len() == line(cells.drop_last(), k).len() + COLUMN_WIDTH + 2);
        assert(line_width(cells.len()) == line_width(cells.drop_last().len()) + COLUMN_WIDTH
            + 2) by (nonlinear_arith)
            requires
                cells.len() > 0,
                cells.drop_last().len() == cells.len() - 1,
        ;
    }
}

/// A row takes as many lines as its longest cell: no cell takes more, and
/// either some cell takes that many or the row takes one line.
pub proof fn law_row_lines(cells: Seq<Seq<char>>)
    ensures
        max_lines(cells) >= 1,
        forall|j: int| 0 <= j < cells.len() ==> lines_of(#[trigger] cells[j].len()) <= max_lines(cells),
        max_lines(cells) == 1 || exists|j: int|
            0 <= j < cells.len() && lines_of(#[trigger] cells[j].len()) == max_lines(cells),
    decreases cells.len(),
{
    if cells.len() > 0 {
        let front = cells.drop_last();
        law_row_lines(front);
        assert forall|j: int| 0 <= j < cells.len() implies lines_of(#[trigger] cells[j].len())
            <= max_lines(cells) by {
            if j < cells.len() - 1 {
                assert(front[j] == cells[j]);
            }
        }
        if max_lines(cells) != 1 {
            if lines_of(cells.last().len()) > max_lines(front) {
                assert(lines_of(cells[cells.len() - 1].len()) == max_lines(cells));
            } else {
                let j = choose|j: int|
                    0 <= j < front.len() && lines_of(#[trigger] front[j].len()) == max_lines(front);
                assert(front[j] == cells[j]);
                assert(lines_of(cells[j].len()) == max_lines(cells));
            }
        }
    }
}

fn lines_for(len: usize) -> (r: usize)
    ensures
        r == lines_of(len as nat),
{
    if len <= COLUMN_WIDTH {
        1
    } else {
        (len - 1) / COLUMN_WIDTH + 1
    }
}

/// The characters of each text.
pub fn cells_of(rows: &Vec<String>) -> (r: Vec<Vec<char>>)
    ensures
        r.deep_view() == rows.deep_view(),
{
    let mut out: Vec<Vec<char>> = Vec::new();
    let mut i: usize = 0;
    while i < rows.len()
        invariant
            i <= rows.len(),
            out.len() == i,
            forall|j: int| 0 <= j < i ==> out[j]@ == rows[j]@,
        decreases rows.len() - i,
    {
        out.push(chars_of(rows[i].as_str()));
        i = i + 1;
    }
    proof {
        assert forall|j: int| 0 <= j < out.len() implies out.deep_view()[j]
            == rows.deep_view()[j] by {
            assert(out[j].deep_view() =~= out[j]@);
        }
        assert(out.deep_view() =~= rows.deep_view());
    }
    out
}

/// The number of lines that the row of `cells` takes.
pub fn most_lines(cells: &Vec<Vec<char>>) -> (r: usize)
    ensures
        r == max_lines(cells.deep_view()),
        (r - 1) * COLUMN_WIDTH <= usize::MAX,
{
    let ghost texts = cells.deep_view();
    let mut most: usize = 1;
    let mut i: usize = 0;
    while i < cells.len()
        invariant
            i <= cells.len(),
            texts == cells.deep_view(),
            most == max_lines(texts.take(i as int)),
            (most - 1) * COLUMN_WIDTH <= usize::MAX,
        decreases cells.len() - i,
    {
        let lines = lines_for(cells[i].len());
        proof {
            assert(texts.take(i + 1).drop_last() =~= texts.take(i as int));
            assert(cells[i as int].deep_view() =~= cells[i as int]@);
            assert(texts.take(i + 1).last() == cells[i as int]@);
        }
        if lines > most {
            most = lines;
        }
        i = i + 1;
    }
    proof {
        assert(texts.take(cells.len() as int) =~= texts);
    }
    most
}

/// Appends line `k` of the row of `cells` to `out`.
fn push_line(out: &mut Vec<char>, cells: &Vec<Vec<char>>, k: usize, start: usize)
    requires
        start == k * COLUMN_WIDTH,
    ensures
        final(out)@ == old(out)@ + line(cells.deep_view(), k as nat),
{
    let ghost before = out@;
    let ghost texts = cells.deep_view();
    let mut j: usize = 0;
    while j < cells.len()
        invariant
            j <= cells.len(),
            start == k * COLUMN_WIDTH,
            texts == cells.deep_view(),
            out@ == before + line(texts.take(j as int), k as nat),
        decreases cells.len() - j,
    {
        let cell = &cells[j];
        let ghost so_far = out@;
        let from: usize = if start <= cell.len() {
            start
        } else {
            cell.len()
        };
        let to: usize = if cell.len() - from >= COLUMN_WIDTH {
            from + COLUMN_WIDTH
        } else {
            cell.len()
        };
        out.push(' ');
        let mut p: usize = from;
        while p < to
            invariant
                from <= p <= to <= cell.len(),
                out@ == so_far.push(' ') + cell@.subrange(from as int, p as int),
            decreases to - p,
        {
            out.push(cell[p]);
            proof {
                assert(cell@.subrange(from as int, p + 1) =~= cell@.subrange(
                    from as int,
                    p as int,
                ).push(cell@[p as int]));
            }
            p = p + 1;
        }
        push_repeated(out, ' ', COLUMN_WIDTH - (to - from));
        out.push('|');
        proof {
            assert(texts.take(j + 1).drop_last() =~= texts.take(j as int));
            assert(cells[j as int].deep_view() =~= cell@);
            assert(texts.take(j + 1).last() == cell@);
            assert(out@ =~= so_far + seq![' '] + chunk(cell@, k as nat) + seq!['|']);
            assert(out@ =~= before + line(texts.take(j + 1), k as nat));
        }
        j = j + 1;
    }
    proof {
        assert(texts.take(cells.len() as int) =~= texts);
    }
}

/// The characters of one row of the grid.
pub fn row_chars(cells: &Vec<Vec<char>>) -> (r: Vec<char>)
    ensures
        r@ == row_text(cells.deep_view()),
{
    let ghost texts = cells.deep_view();
    let n = most_lines(cells);
    let mut out: Vec<char> = Vec::new();
    let mut k: usize = 0;
    let mut start: usize = 0;
    while k < n
        invariant
            k <= n,
            n == max_lines(texts),
            texts == cells.deep_view(),
            k < n ==> start == k * COLUMN_WIDTH,
            out@ == block(texts, k as nat),
            (n - 1) * COLUMN_WIDTH <= usize::MAX,
        decreases n - k,
    {
        if k > 0 {
            out.push('\n');
        }
        push_line(&mut out, cells, k, start);
        proof {
            assert(out@ =~= block(texts, (k + 1) as nat));
        }
        k = k + 1;
        if k < n {
            start = start + COLUMN_WIDTH;
        }
    }
    out
}

} // verus!
