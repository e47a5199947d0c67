//! The table: columns, and rows that the columns allow.

use vstd::prelude::*;
use crate::basic_elements::column::TColumn;
use crate::basic_elements::names::{find, lemma_position, position, position_from};
use crate::basic_elements::outcome::TableResult;
use crate::basic_elements::record::{Field, Record};
use crate::basic_elements::schema::{
    lemma_add_wf,
    lemma_first_unknown,
    lemma_insert_wf,
    TableView,
};
use crate::picking::picked;
use crate::basic_elements::value::{DataType, TData};

verus! {

/// A named table. Columns and rows are only ever added, each behind those
/// that are there.
#[derive(Debug)]
pub struct Table {
    columns: Vec<TColumn>,
    name: String,
    records: Vec<Record>,
}

impl View for Table {
    type V = TableView;

    closed spec fn view(&self) -> TableView {
        TableView {
            name: self.name@,
            columns: self.columns.deep_view(),
            records: self.records.deep_view(),
        }
    }
}

impl Clone for Table {
    fn clone(&self) -> (r: Self)
        ensures
            r@ == self@,
    {
        let mut columns: Vec<TColumn> = Vec::new();
        let mut j: usize = 0;
        while j < self.columns.len()
            invariant
                j <= self.columns.len(),
                columns.len() == j,
                forall|k: int| 0 <= k < j ==> (#[trigger] columns[k])@ == self.columns[k]@,
            decreases self.columns.len() - j,
        {
            columns.push(self.columns[j].clone());
            j = j + 1;
        }
        let mut records: Vec<Record> = Vec::new();
        let mut i: usize = 0;
        while i < self.records.len()
            invariant
                i <= self.records.len(),
                records.len() == i,
                forall|k: int| 0 <= k < i ==> (#[trigger] records[k])@ == self.records[k]@,
            decreases self.records.len() - i,
        {
            records.push(self.records[i].clone());
            i = i + 1;
        }
        proof {
            assert(columns.deep_view() =~= self.columns.deep_view());
            assert(records.deep_view() =~= self.records.deep_view());
        }
        Table { columns, name: self.name.clone(), records }
    }
}

impl Table {
    /// The rows as they are held, in order.
    pub closed spec fn rows(&self) -> Seq<Record> {
        self.records@
    }

    /// The rows of the model are the rows held, each by its view.
    pub proof fn lemma_rows(&self)
        ensures
            self.rows().len() == self@.records.len(),
            forall|i: int| 0 <= i < self.rows().len() ==> (#[trigger] self.rows()[i])@ == self@.records[i],
    {
    }

    /// A table without columns and rows.
    pub fn new(name: String) -> (r: Table)
        ensures
            r@ == (TableView { name: name@, columns: Seq::empty(), records: Seq::empty() }),
            r@.wf(),
    {
        let r = Table { columns: Vec::new(), name, records: Vec::new() };
        proof {
            assert(r.columns.deep_view() =~= Seq::empty());
            assert(r.records.deep_view() =~= Seq::empty());
        }
        r
    }

    /// The name of the table.
    pub fn name(&self) -> (r: &String)
        ensures
            r@ == self@.name,
    {
        &self.name
    }

    /// The columns, in order.
    pub fn columns(&self) -> (r: &Vec<TColumn>)
        ensures
            r.deep_view() == self@.columns,
    {
        &self.columns
    }

    /// The rows, in order.
    pub fn records(&self) -> (r: &Vec<Record>)
        ensures
            r@ == self.rows(),
            r.deep_view() == self@.records,
    {
        &self.records
    }

    /// The place of the column `name`.
    fn find_column(&self, name: &String) -> (r: Option<usize>)
        ensures
            match r {
                Some(j) => position(self@.column_names(), name@) == Some(j as int) && j
                    < self.columns.len(),
                None => position(self@.column_names(), name@) is None,
            },
    {
        let ghost names = self@.column_names();
        let mut j: usize = 0;
        while j < self.columns.len()
            invariant
                j <= self.columns.len(),
                names == self@.column_names(),
                position(names, name@) == position_from(names, name@, j as int),
            decreases self.columns.len() - j,
        {
            if self.columns[j].name == *name {
                return Some(j);
            }
            j = j + 1;
        }
        None
    }

    /// The column `name`, where the table has one.
    pub fn find(&self, name: &str) -> (r: Option<&TColumn>)
        ensures
            match r {
                Some(column) => self@.has_column(name@) && column@ == self@.column(name@),
                None => !self@.has_column(name@),
            },
    {
        let key = name.to_owned();
        match self.find_column(&key) {
            Some(j) => Some(&self.columns[j]),
            None => None,
        }
    }

    /// The names of the columns that every row must give a value, in the
    /// order of the columns.
    pub fn required_columns(&self) -> (r: Vec<String>)
        ensures
            r.deep_view() == picked(self@.column_names(), self@.required_marks()),
    {
        let ghost names = self@.column_names();
        let ghost marks = self@.required_marks();
        let mut out: Vec<String> = Vec::new();
        let mut j: usize = 0;
        proof {
            assert(names.take(0) =~= Seq::empty());
            assert(out.deep_view() =~= Seq::empty());
        }
        while j < self.columns.len()
            invariant
                j <= self.columns.len(),
                names == self@.column_names(),
                marks == self@.required_marks(),
                out.deep_view() == picked(names.take(j as int), marks.take(j as int)),
            decreases self.columns.len() - j,
        {
            let ghost so_far = out.deep_view();
            if self.columns[j].required {
                out.push(self.columns[j].name.clone());
                proof {
                    assert(out.deep_view() =~= so_far.push(names[j as int]));
                }
            }
            proof {
                assert(names.take(j + 1).drop_last() =~= names.take(j as int));
                assert(marks.take(j + 1).drop_last() =~= marks.take(j as int));
            }
            j = j + 1;
        }
        proof {
            assert(names.take(self.columns.len() as int) =~= names);
            assert(marks.take(self.columns.len() as int) =~= marks);
        }
        out
    }

    /// Adds a column behind those that are there, unless the table has one
    /// of that name.
    pub fn add(&mut self, column_name: String, datatype: DataType, required: bool) -> (r: Result<
        (),
        TableResult,
    >)
        ensures
            final(self)@ == old(self)@.add(column_name@, datatype, required),
            match r {
                Ok(_) => old(self)@.add_refusal(column_name@) is None,
                Err(e) => old(self)@.add_refusal(column_name@) == Some(e@),
            },
            old(self)@.wf() ==> final(self)@.wf(),
    {
        let ghost before = self@;
        proof {
            if before.wf() {
                lemma_add_wf(before, column_name@, datatype, required);
            }
        }
        match self.find_column(&column_name) {
            Some(_) => Err(TableResult::ColumnExists(column_name)),
            None => {
                let col = TColumn::new(column_name, datatype, self.columns.len(), required);
                self.columns.push(col);
                proof {
                    assert(self.columns.deep_view() =~= before.columns.push(col@));
                }
                Ok(())
            },
        }
    }

    /// Appends the row that gives `values[i]` for the column
    /// `columns_name[i]`, unless the table refuses it.
    pub fn insert(&mut self, columns_name: Vec<String>, values: Vec<TData>) -> (r: Result<
        (),
        TableResult,
    >)
        requires
            old(self)@.records.len() < usize::MAX,
        ensures
            final(self)@ == old(self)@.insert(columns_name.deep_view(), values.deep_view()),
            match r {
                Ok(_) => old(self)@.insert_refusal(columns_name.deep_view(), values.deep_view())
                    is None,
                Err(e) => old(self)@.insert_refusal(columns_name.deep_view(), values.deep_view())
                    == Some(e@),
            },
            old(self)@.wf() ==> final(self)@.wf(),
    {
        proof {
            if self@.wf() {
                lemma_insert_wf(self@, columns_name.deep_view(), values.deep_view());
            }
        }
        match self.insert_validator(&columns_name, &values) {
            Ok(_) => self._insert(columns_name, values),
            Err(e) => Err(e),
        }
    }

    /// Checks the names of a row: as many values as names, every name that
    /// of a column, every required column named.
    fn insert_validator(&self, columns_name: &Vec<String>, values: &Vec<TData>) -> (r: Result<
        (),
        TableResult,
    >)
        ensures
            match r {
                Ok(_) => self@.names_refusal(columns_name.deep_view(), values.len() as nat)
                    is None,
                Err(e) => self@.names_refusal(columns_name.deep_view(), values.len() as nat)
                    == Some(e@),
            },
    {
        if columns_name.len() != values.len() {
            return Err(TableResult::ValuesLenNeqPropertiesName);
        }
        let ghost names = columns_name.deep_view();
        let mut i: usize = 0;
        while i < columns_name.len()
            invariant
                i <= columns_name.len(),
                columns_name.len() == values.len(),
                names == columns_name.deep_view(),
                self@.first_unknown_from(names, 0) == self@.first_unknown_from(names, i as int),
            decreases columns_name.len() - i,
        {
            match self.find_column(&columns_name[i]) {
                Some(_) => {},
                None => {
                    return Err(TableResult::ColumnNotExists(columns_name[i].clone()));
                },
            }
            i = i + 1;
        }
        self.insert_validator_check_required(columns_name)
    }

    /// Checks that every required column is among the names of a row.
    fn insert_validator_check_required(&self, columns_name: &Vec<String>) -> (r: Result<
        (),
        TableResult,
    >)
        ensures
            match r {
                Ok(_) => self@.required_refusal(columns_name.deep_view()) is None,
                Err(e) => self@.required_refusal(columns_name.deep_view()) == Some(e@),
            },
    {
        let ghost names = columns_name.deep_view();
        let mut j: usize = 0;
        while j < self.columns.len()
            invariant
                j <= self.columns.len(),
                names == columns_name.deep_view(),
                self@.first_missing_from(names, 0) == self@.first_missing_from(names, j as int),
            decreases self.columns.len() - j,
        {
            let col = &self.columns[j];
            if col.required && find(columns_name, &col.name).is_none() {
                return Err(TableResult::RequiredFieldNotExist(col.name.clone()));
            }
            j = j + 1;
        }
        Ok(())
    }

    /// Checks the values of a row whose names are in order, and appends
    /// the row where they fit.
    fn _insert(&mut self, columns_name: Vec<String>, values: Vec<TData>) -> (r: Result<
        (),
        TableResult,
    >)
        requires
            old(self)@.records.len() < usize::MAX,
            old(self)@.names_refusal(columns_name.deep_view(), values.len() as nat) is None,
        ensures
            final(self)@ == old(self)@.insert(columns_name.deep_view(), values.deep_view()),
            match r {
                Ok(_) => old(self)@.values_refusal(columns_name.deep_view(), values.deep_view())
                    is None,
                Err(e) => old(self)@.values_refusal(columns_name.deep_view(), values.deep_view())
                    == Some(e@),
            },
    {
        let ghost before = self@;
        let ghost names = columns_name.deep_view();
        let ghost given = values.deep_view();
        let mut i: usize = 0;
        while i < columns_name.len()
            invariant
                i <= columns_name.len(),
                columns_name.len() == values.len(),
                self@ == before,
                names == columns_name.deep_view(),
                given == values.deep_view(),
                before.first_unknown_from(names, 0) is None,
                before.first_mismatch_from(names, given, 0) == before.first_mismatch_from(
                    names,
                    given,
                    i as int,
                ),
            decreases columns_name.len() - i,
        {
            let class = match self.find_column(&columns_name[i]) {
                Some(j) => self.columns[j].class,
                None => DataType::Null,
            };
            let actual = values[i].get_type();
            if actual != DataType::Null && actual != class {
                proof {
                    lemma_first_unknown(before, names, 0);
                    assert(before.has_column(names[i as int]));
                }
                return Err(TableResult::InvalidTypes(columns_name[i].clone(), class, actual));
            }
            proof {
                lemma_first_unknown(before, names, 0);
                assert(before.has_column(names[i as int]));
            }
            i = i + 1;
        }
        let mut fields: Vec<Field> = Vec::new();
        let mut j: usize = 0;
        while j < self.columns.len()
            invariant
                j <= self.columns.len(),
                columns_name.len() == values.len(),
                self@ == before,
                names == columns_name.deep_view(),
                given == values.deep_view(),
                fields.len() == j,
                forall|k: int|
                    0 <= k < j ==> (#[trigger] fields[k])@ == (
                        before.columns[k].name,
                        before.cell_for(names, given, k),
                    ),
            decreases self.columns.len() - j,
        {
            let col = &self.columns[j];
            let value = match find(&columns_name, &col.name) {
                Some(i) => {
                    proof {
                        lemma_position(names, col.name@);
                    }
                    values[i].clone()
                },
                None => col.class.get_null(),
            };
            fields.push(Field { name: col.name.clone(), value });
            j = j + 1;
        }
        let record = Record::with_fields(self.records.len() + 1, fields);
        proof {
            assert(record@.fields =~= before.new_record(names, given).fields);
        }
        self.records.push(record);
        proof {
            assert(self.records.deep_view() =~= before.records.push(record@));
        }
        Ok(())
    }

    /// The rows as rows of values under the columns of the table: a row
    /// that has no field of a column's name shows the null value there.
    pub fn get_like_rows(&self) -> (r: Vec<Vec<TData>>)
        ensures
            r.deep_view() == self@.like_rows(),
    {
        let mut table: Vec<Vec<TData>> = Vec::new();
        let mut i: usize = 0;
        while i < self.records.len()
            invariant
                i <= self.records.len(),
                table.len() == i,
                forall|k: int| 0 <= k < i ==> (#[trigger] table[k]).deep_view() == self@.like_row(k),
            decreases self.records.len() - i,
        {
            let record = &self.records[i];
            let mut row: Vec<TData> = Vec::new();
            let mut j: usize = 0;
            while j < self.columns.len()
                invariant
                    j <= self.columns.len(),
                    i < self.records.len(),
                    record == &self.records[i as int],
                    row.len() == j,
                    forall|k: int|
                        0 <= k < j ==> (#[trigger] row[k])@ == self@.records[i as int].value_or_null(
                            self@.columns[k].name,
                        ),
                decreases self.columns.len() - j,
            {
                let value = match record.get(self.columns[j].name.as_str()) {
                    Ok(found) => found.clone(),
                    Err(_) => TData::Null,
                };
                row.push(value);
                j = j + 1;
            }
            proof {
                assert(row.deep_view() =~= self@.like_row(i as int));
            }
            table.push(row);
            i = i + 1;
        }
        proof {
            assert(table.deep_view() =~= self@.like_rows());
        }
        table
    }
}

} // verus!
