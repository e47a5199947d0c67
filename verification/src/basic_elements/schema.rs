//! What a table is, and what adding a column or a row makes of it.

use vstd::prelude::*;
use crate::basic_elements::column::ColumnView;
use crate::basic_elements::names::{lemma_position, position};
use crate::basic_elements::outcome::Refusal;
use crate::basic_elements::record::RecordView;
use crate::basic_elements::value::{DataType, Datum};

verus! {

/// What a table is: the model that contracts speak of.
pub struct TableView {
    pub name: Seq<char>,
    /// The columns, in the order in which they were added.
    pub columns: Seq<ColumnView>,
    /// The rows, in the order in which they were inserted.
    pub records: Seq<RecordView>,
}

impl TableView {
    /// The names of the columns, in order.
    pub open spec fn column_names(self) -> Seq<Seq<char>> {
        Seq::new(self.columns.len(), |j: int| self.columns[j].name)
    }

    /// For each column, in order, whether it is required.
    pub open spec fn required_marks(self) -> Seq<bool> {
        Seq::new(self.columns.len(), |j: int| self.columns[j].required)
    }

    /// Whether the table has a column `name`.
    pub open spec fn has_column(self, name: Seq<char>) -> bool {
        position(self.column_names(), name) is Some
    }

    /// The column `name` of a table that has one.
    pub open spec fn column(self, name: Seq<char>) -> ColumnView {
        self.columns[position(self.column_names(), name)->0]
    }

    /// Whether the row `record` is one that the columns allow: its fields
    /// are the first columns of the table, by name and in order, and each
    /// value is of its column's type or null.
    pub open spec fn admits(self, record: RecordView) -> bool {
        &&& record.fields.len() <= self.columns.len()
        &&& forall|k: int|
            0 <= k < record.fields.len() ==> {
                &&& (#[trigger] record.fields[k]).0 == self.columns[k].name
                &&& record.fields[k].1.fits(self.columns[k].class)
            }
    }

    /// The invariant of a table: no two columns have one name, every
    /// column knows its place, the rows are numbered from 1 in order, and
    /// the columns allow every row.
    pub open spec fn wf(self) -> bool {
        &&& self.column_names().no_duplicates()
        &&& forall|j: int| 0 <= j < self.columns.len() ==> (#[trigger] self.columns[j]).index == j
        &&& forall|i: int| 0 <= i < self.records.len() ==> (#[trigger] self.records[i]).id == i + 1
        &&& forall|i: int| 0 <= i < self.records.len() ==> self.admits(#[trigger] self.records[i])
    }

    /// Why the table refuses a new column `name`, if it does: it has one
    /// of that name.
    pub open spec fn add_refusal(self, name: Seq<char>) -> Option<Refusal> {
        if self.has_column(name) {
            Some(Refusal::ColumnExists(name))
        } else {
            None
        }
    }

    /// The table after a request to add the column `name`: with the column
    /// behind the others, or unchanged where the request is refused.
    pub open spec fn add(self, name: Seq<char>, class: DataType, required: bool) -> TableView {
        if self.has_column(name) {
            self
        } else {
            TableView {
                columns: self.columns.push(
                    ColumnView { name, class, index: self.columns.len(), required },
                ),
                ..self
            }
        }
    }

    /// The first place from `from` on in `names` of a name that no column
    /// has.
    pub open spec fn first_unknown_from(self, names: Seq<Seq<char>>, from: int) -> Option<int>
        decreases names.len() - from,
    {
        if from >= names.len() {
            None
        } else if !self.has_column(names[from]) {
            Some(from)
        } else {
            self.first_unknown_from(names, from + 1)
        }
    }

    /// The first column from place `from` on that is required and whose
    /// name is not among `names`.
    pub open spec fn first_missing_from(self, names: Seq<Seq<char>>, from: int) -> Option<int>
        decreases self.columns.len() - from,
    {
        if from >= self.columns.len() {
            None
        } else if self.columns[from].required && position(names, self.columns[from].name) is None {
            Some(from)
        } else {
            self.first_missing_from(names, from + 1)
        }
    }

    /// The first place from `from` on at which the value given does not
    /// fit the column named.
    pub open spec fn first_mismatch_from(
        self,
        names: Seq<Seq<char>>,
        values: Seq<Datum>,
        from: int,
    ) -> Option<int>
        decreases names.len() - from,
    {
        if from >= names.len() {
            None
        } else if !values[from].fits(self.column(names[from]).class) {
            Some(from)
        } else {
            self.first_mismatch_from(names, values, from + 1)
        }
    }

    /// Why the table refuses the names of a row, if it does. The checks
    /// come in this order, and the first that fails decides: as many
    /// values as names; every name that of a column; every required column
    /// among the names.
    pub open spec fn names_refusal(self, names: Seq<Seq<char>>, count: nat) -> Option<Refusal> {
        if names.len() != count {
            Some(Refusal::ValuesLenNeqPropertiesName)
        } else if self.first_unknown_from(names, 0) is Some {
            Some(Refusal::ColumnNotExists(names[self.first_unknown_from(names, 0)->0]))
        } else {
            self.required_refusal(names)
        }
    }

    /// Why the table refuses `names` for want of a required column, if it
    /// does: the first such column in the order of the columns is named.
    pub open spec fn required_refusal(self, names: Seq<Seq<char>>) -> Option<Refusal> {
        if self.first_missing_from(names, 0) is Some {
            Some(
                Refusal::RequiredFieldNotExist(
                    self.columns[self.first_missing_from(names, 0)->0].name,
                ),
            )
        } else {
            None
        }
    }

    /// Why the table refuses the values of a row whose names it accepts,
    /// if it does: the first value, in the order given, that is neither
    /// null nor of the type of its column.
    pub open spec fn values_refusal(self, names: Seq<Seq<char>>, values: Seq<Datum>) -> Option<
        Refusal,
    > {
        if self.first_mismatch_from(names, values, 0) is Some {
            let i = self.first_mismatch_from(names, values, 0)->0;
            Some(Refusal::InvalidTypes(names[i], self.column(names[i]).class, values[i].tag()))
        } else {
            None
        }
    }

    /// Why the table refuses the row that gives `values[i]` for the column
    /// `names[i]`, if it does.
    pub open spec fn insert_refusal(self, names: Seq<Seq<char>>, values: Seq<Datum>) -> Option<
        Refusal,
    > {
        if self.names_refusal(names, values.len()) is Some {
            self.names_refusal(names, values.len())
        } else {
            self.values_refusal(names, values)
        }
    }

    /// The value that the new row holds in column `j`: the first one given
    /// under the column's name, or the null value of the column's type.
    pub open spec fn cell_for(self, names: Seq<Seq<char>>, values: Seq<Datum>, j: int) -> Datum {
        match position(names, self.columns[j].name) {
            Some(i) => values[i],
            None => self.columns[j].class.null_datum(),
        }
    }

    /// The row that an accepted insertion appends: numbered one past the
    /// rows there are, with one field for every column, in their order.
    pub open spec fn new_record(self, names: Seq<Seq<char>>, values: Seq<Datum>) -> RecordView {
        RecordView {
            id: self.records.len() + 1,
            fields: Seq::new(
                self.columns.len(),
                |j: int| (self.columns[j].name, self.cell_for(names, values, j)),
            ),
        }
    }

    /// The values of row `i` under the columns of the table, in their
    /// order: the null value where the row has no field of a column's
    /// name, as it has none of a column that was added after it.
    pub open spec fn like_row(self, i: int) -> Seq<Datum> {
        Seq::new(
            self.columns.len(),
            |j: int| self.records[i].value_or_null(self.columns[j].name),
        )
    }

    /// The rows as rows of values, in order.
    pub open spec fn like_rows(self) -> Seq<Seq<Datum>> {
        Seq::new(self.records.len(), |i: int| self.like_row(i))
    }

    /// The table after a request to insert a row: with the new row behind
    /// the others, or unchanged where the request is refused.
    pub open spec fn insert(self, names: Seq<Seq<char>>, values: Seq<Datum>) -> TableView {
        if self.insert_refusal(names, values) is Some {
            self
        } else {
            TableView { records: self.records.push(self.new_record(names, values)), ..self }
        }
    }
}

/// `first_unknown_from` finds the first unknown name from `from` on, or
/// every name from there on is that of a column.
pub proof fn lemma_first_unknown(t: TableView, names: Seq<Seq<char>>, from: int)
    requires
        0 <= from,
    ensures
        match t.first_unknown_from(names, from) {
            Some(i) => from <= i < names.len() && !t.has_column(names[i]) && forall|k: int|
                from <= k < i ==> t.has_column(#[trigger] names[k]),
            None => forall|k: int| from <= k < names.len() ==> t.has_column(#[trigger] names[k]),
        },
    decreases names.len() - from,
{
    if from < names.len() && t.has_column(names[from]) {
        lemma_first_unknown(t, names, from + 1);
    }
}

/// Whether column `j` is required and not among `names`.
pub open spec fn missing_at(t: TableView, names: Seq<Seq<char>>, j: int) -> bool {
    t.columns[j].required && position(names, t.columns[j].name) is None
}

/// `first_missing_from` finds the first required column from `from` on
/// that `names` leaves out, or `names` leaves none out.
pub proof fn lemma_first_missing(t: TableView, names: Seq<Seq<char>>, from: int)
    requires
        0 <= from,
    ensures
        match t.first_missing_from(names, from) {
            Some(j) => from <= j < t.columns.len() && missing_at(t, names, j) && forall|k: int|
                from <= k < j ==> !missing_at(t, names, k),
            None => forall|k: int| from <= k < t.columns.len() ==> !missing_at(t, names, k),
        },
    decreases t.columns.len() - from,
{
    if from < t.columns.len() && !missing_at(t, names, from) {
        lemma_first_missing(t, names, from + 1);
    }
}

/// Whether the value given at place `i` does not fit its column.
pub open spec fn mismatch_at(t: TableView, names: Seq<Seq<char>>, values: Seq<Datum>, i: int) -> bool {
    !values[i].fits(t.column(names[i]).class)
}

/// `first_mismatch_from` finds the first value from `from` on that does
/// not fit its column, or every value from there on fits.
pub proof fn lemma_first_mismatch(
    t: TableView,
    names: Seq<Seq<char>>,
    values: Seq<Datum>,
    from: int,
)
    requires
        0 <= from,
    ensures
        match t.first_mismatch_from(names, values, from) {
            Some(i) => from <= i < names.len() && mismatch_at(t, names, values, i) && forall|
                k: int,
            |
                from <= k < i ==> !mismatch_at(t, names, values, k),
            None => forall|k: int| from <= k < names.len() ==> !mismatch_at(t, names, values, k),
        },
    decreases names.len() - from,
{
    if from < names.len() && !mismatch_at(t, names, values, from) {
        lemma_first_mismatch(t, names, values, from + 1);
    }
}

/// Adding a column keeps the invariant, whether the column is taken or
/// refused.
pub proof fn lemma_add_wf(t: TableView, name: Seq<char>, class: DataType, required: bool)
    requires
        t.wf(),
    ensures
        t.add(name, class, required).wf(),
{
    let after = t.add(name, class, required);
    if !t.has_column(name) {
        lemma_position(t.column_names(), name);
        assert forall|i: int, j: int|
            0 <= i < after.column_names().len() && 0 <= j < after.column_names().len() && i
                != j implies after.column_names()[i] != after.column_names()[j] by {
            if i < t.columns.len() && j < t.columns.len() {
                assert(t.column_names()[i] != t.column_names()[j]);
            } else if i < t.columns.len() {
                assert(t.column_names()[i] != name);
            } else {
                assert(t.column_names()[j] != name);
            }
        }
        assert forall|i: int| 0 <= i < after.records.len() implies after.admits(
            #[trigger] after.records[i],
        ) by {
            assert(t.admits(t.records[i]));
        }
    }
}

/// Inserting a row keeps the invariant, whether the row is taken or
/// refused.
pub proof fn lemma_insert_wf(t: TableView, names: Seq<Seq<char>>, values: Seq<Datum>)
    requires
        t.wf(),
    ensures
        t.insert(names, values).wf(),
{
    let after = t.insert(names, values);
    if t.insert_refusal(names, values) is None {
        let row = t.new_record(names, values);
        lemma_first_unknown(t, names, 0);
        lemma_first_mismatch(t, names, values, 0);
        assert forall|k: int| 0 <= k < row.fields.len() implies {
            &&& (#[trigger] row.fields[k]).0 == t.columns[k].name
            &&& row.fields[k].1.fits(t.columns[k].class)
        } by {
            let column = t.columns[k];
            lemma_position(names, column.name);
            match position(names, column.name) {
                Some(i) => {
                    lemma_position(t.column_names(), names[i]);
                    let found = position(t.column_names(), names[i])->0;
                    assert(t.has_column(names[i]));
                    assert(t.column_names()[found] == t.column_names()[k]);
                    assert(found == k);
                    assert(!mismatch_at(t, names, values, i));
                },
                None => {},
            }
        }
        assert forall|i: int| 0 <= i < after.records.len() implies after.admits(
            #[trigger] after.records[i],
        ) by {
            if i < t.records.len() {
                assert(t.admits(t.records[i]));
            }
        }
    }
}

} // verus!
