//! A table as a text grid.

use vstd::prelude::*;
use vstd::string::StringExecFns;
use crate::basic_elements::layout::{
    cells_of,
    line_width,
    max_lines,
    most_lines,
    row_chars,
    row_text,
    rule,
    COLUMN_WIDTH,
};
use crate::basic_elements::schema::TableView;
use crate::basic_elements::table::Table;
use crate::basic_elements::value::Datum;
use crate::text::{push_repeated, repeated, string_of};

verus! {

/// The text forms of the values of a row, in order.
pub open spec fn rendered_row(row: Seq<Datum>) -> Seq<Seq<char>> {
    Seq::new(row.len(), |j: int| row[j].rendered())
}

/// The first `count` of `rows` as text: before each row a line break, and
/// behind it a line break and a rule of `-`.
pub open spec fn body_text(rows: Seq<Seq<Datum>>, columns: nat, count: nat) -> Seq<char>
    decreases count,
{
    if count == 0 {
        Seq::empty()
    } else {
        body_text(rows, columns, (count - 1) as nat) + seq!['\n'] + row_text(
            rendered_row(rows[count - 1]),
        ) + seq!['\n'] + rule('-', columns)
    }
}

/// A table as text: the names of the columns as a row, a line break and
/// a rule of `=`, then the rows in order, each with a rule of `-` behind
/// it. The text starts with the row of names and ends with the last rule.
pub open spec fn table_text(t: TableView) -> Seq<char> {
    row_text(t.column_names()) + seq!['\n'] + rule('=', t.columns.len()) + body_text(
        t.like_rows(),
        t.columns.len(),
        t.records.len(),
    )
}

/// The text of a table starts with the row of the names of its columns,
/// and a line break and a rule of `=` follow it. Where the table has no
/// rows, that is all of it.
pub proof fn law_text_starts_with_names(t: TableView)
    ensures
        table_text(t).len() >= row_text(t.column_names()).len() + 1 + rule('=', t.columns.len()).len(),
        table_text(t).subrange(0, row_text(t.column_names()).len() as int) == row_text(
            t.column_names(),
        ),
        table_text(t).subrange(
            row_text(t.column_names()).len() as int,
            (row_text(t.column_names()).len() + 1 + rule('=', t.columns.len()).len()) as int,
        ) == seq!['\n'] + rule('=', t.columns.len()),
        t.records.len() == 0 ==> table_text(t) == row_text(t.column_names()) + seq!['\n'] + rule(
            '=',
            t.columns.len(),
        ),
{
    let names = row_text(t.column_names());
    let under = rule('=', t.columns.len());
    let rest = body_text(t.like_rows(), t.columns.len(), t.records.len());
    assert(table_text(t) =~= names + seq!['\n'] + under + rest);
    assert(table_text(t).subrange(0, names.len() as int) =~= names);
    assert(table_text(t).subrange(names.len() as int, (names.len() + 1 + under.len()) as int) =~= seq![
        '\n',
    ] + under);
    if t.records.len() == 0 {
        assert(rest =~= Seq::empty());
        assert(table_text(t) =~= names + seq!['\n'] + under);
    }
}

/// Every row of a table is followed by a line break and a rule of `-`,
/// and nothing follows the rule of the last row.
pub proof fn law_text_ends_with_rule(t: TableView)
    requires
        t.records.len() > 0,
    ensures
        table_text(t).len() >= 1 + rule('-', t.columns.len()).len(),
        table_text(t).subrange(
            table_text(t).len() - 1 - rule('-', t.columns.len()).len(),
            table_text(t).len() as int,
        ) == seq!['\n'] + rule('-', t.columns.len()),
{
    let under = rule('-', t.columns.len());
    let whole = table_text(t);
    assert(whole.subrange(whole.len() - 1 - under.len(), whole.len() as int) =~= seq!['\n']
        + under);
}

/// Renders tables as text grids.
pub struct TableForameter;

impl TableForameter {
    /// The number of lines that the row of `rows` takes.
    pub fn get_max_column_length(rows: &Vec<String>) -> (r: usize)
        ensures
            r == max_lines(rows.deep_view()),
    {
        let cells = cells_of(rows);
        most_lines(&cells)
    }

    /// Renders one row of the grid.
    pub fn build_row(rows: &Vec<String>) -> (r: String)
        ensures
            r@ == row_text(rows.deep_view()),
    {
        let cells = cells_of(rows);
        let chars = row_chars(&cells);
        string_of(&chars)
    }

    /// A rule of `c` under a row of `columns` cells.
    fn build_rule(c: char, columns: usize) -> (r: String)
        ensures
            r@ == rule(c, columns as nat),
    {
        let mut out: Vec<char> = Vec::new();
        let mut j: usize = 0;
        while j < columns
            invariant
                j <= columns,
                out@ == repeated(c, line_width(j as nat)),
            decreases columns - j,
        {
            push_repeated(&mut out, c, COLUMN_WIDTH + 2);
            proof {
                assert(line_width((j + 1) as nat) == line_width(j as nat) + COLUMN_WIDTH + 2)
                    by (nonlinear_arith);
                assert(out@ =~= repeated(c, line_width((j + 1) as nat)));
            }
            j = j + 1;
        }
        string_of(&out)
    }

    /// Renders the table as a text grid.
    pub fn stringify(_table: &Table) -> (r: String)
        ensures
            r@ == table_text(_table@),
    {
        let ghost t = _table@;
        let columns = _table.columns();
        let mut names: Vec<String> = Vec::new();
        let mut j: usize = 0;
        while j < columns.len()
            invariant
                j <= columns.len(),
                columns.deep_view() == t.columns,
                names.len() == j,
                forall|k: int| 0 <= k < j ==> (#[trigger] names[k])@ == t.columns[k].name,
            decreases columns.len() - j,
        {
            names.push(columns[j].name.clone());
            j = j + 1;
        }
        proof {
            assert(names.deep_view() =~= t.column_names());
        }
        let line1 = Self::build_rule('=', columns.len());
        let line2 = Self::build_rule('-', columns.len());
        let mut cur_str = Self::build_row(&names);
        cur_str.append("\n");
        cur_str.append(line1.as_str());
        proof {
            reveal_strlit("\n");
            assert("\n"@ =~= seq!['\n']);
            assert(cur_str@ =~= table_text(t).subrange(0, cur_str@.len() as int)) by {
                assert(body_text(t.like_rows(), t.columns.len(), 0) =~= Seq::empty());
            }
        }
        let ghost head = cur_str@;
        let rows = _table.get_like_rows();
        proof {
            assert(rows.deep_view().len() == rows.len());
        }
        let mut i: usize = 0;
        while i < rows.len()
            invariant
                i <= rows.len(),
                rows.deep_view() == t.like_rows(),
                rows.len() == t.records.len(),
                line2@ == rule('-', t.columns.len()),
                cur_str@ == head + body_text(t.like_rows(), t.columns.len(), i as nat),
            decreases rows.len() - i,
        {
            let row = &rows[i];
            let mut cells: Vec<String> = Vec::new();
            let mut k: usize = 0;
            while k < row.len()
                invariant
                    k <= row.len(),
                    cells.len() == k,
                    forall|m: int| 0 <= m < k ==> (#[trigger] cells[m])@ == row[m]@.rendered(),
                decreases row.len() - k,
            {
                cells.push(row[k].stringify());
                k = k + 1;
            }
            proof {
                assert(cells.deep_view() =~= rendered_row(row.deep_view()));
                assert(row.deep_view() == t.like_rows()[i as int]);
            }
            cur_str.append("\n");
            cur_str.append(Self::build_row(&cells).as_str());
            cur_str.append("\n");
            cur_str.append(line2.as_str());
            proof {
                reveal_strlit("\n");
                assert("\n"@ =~= seq!['\n']);
                assert(cur_str@ =~= head + body_text(
                    t.like_rows(),
                    t.columns.len(),
                    (i + 1) as nat,
                ));
            }
            i = i + 1;
        }
        proof {
            assert(cur_str@ =~= table_text(t));
        }
        cur_str
    }
}

} // verus!
