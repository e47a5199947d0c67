//! What holds of every table, whatever it holds.

use vstd::prelude::*;
use crate::basic_elements::names::{lemma_position, position};
use crate::basic_elements::outcome::Refusal;
use crate::basic_elements::schema::{
    lemma_first_mismatch,
    lemma_first_missing,
    mismatch_at,
    missing_at,
    TableView,
};
use crate::basic_elements::structured::Tree;
use crate::basic_elements::value::{DataType, Datum};

verus! {

/// A column under a name that the table has is refused with
/// `ColumnExists`, and the table stays as it is: it has as many columns
/// as before.
pub proof fn law_add_existing_column(
    t: TableView,
    name: Seq<char>,
    class: DataType,
    required: bool,
)
    requires
        t.has_column(name),
    ensures
        t.add_refusal(name) == Some(Refusal::ColumnExists(name)),
        t.add(name, class, required) == t,
        t.add(name, class, required).columns.len() == t.columns.len(),
{
}

/// A column under a new name is taken: it comes behind the others and
/// knows its place, and rows and earlier columns stay as they are.
pub proof fn law_add_new_column(t: TableView, name: Seq<char>, class: DataType, required: bool)
    requires
        !t.has_column(name),
    ensures
        t.add_refusal(name) is None,
        t.add(name, class, required).columns.len() == t.columns.len() + 1,
        t.add(name, class, required).columns.last().name == name,
        t.add(name, class, required).columns.last().index == t.columns.len(),
        t.add(name, class, required).columns.drop_last() == t.columns,
        t.add(name, class, required).records == t.records,
        t.add(name, class, required).has_column(name),
{
    let after = t.add(name, class, required);
    assert(after.columns.drop_last() =~= t.columns);
    lemma_position(after.column_names(), name);
    assert(after.column_names()[t.columns.len() as int] == name);
}

/// A row that the table takes comes behind the others: there is exactly
/// one row more, its number is the number of rows there were plus one,
/// and columns and earlier rows stay as they are.
pub proof fn law_insert_appends(t: TableView, names: Seq<Seq<char>>, values: Seq<Datum>)
    requires
        t.insert_refusal(names, values) is None,
    ensures
        t.insert(names, values).records.len() == t.records.len() + 1,
        t.insert(names, values).records.last().id == t.records.len() + 1,
        t.insert(names, values).records.drop_last() == t.records,
        t.insert(names, values).columns == t.columns,
{
    assert(t.insert(names, values).records.drop_last() =~= t.records);
}

/// A row that the table refuses, for whatever reason, leaves the table as
/// it is.
pub proof fn law_refused_insert_changes_nothing(
    t: TableView,
    names: Seq<Seq<char>>,
    values: Seq<Datum>,
)
    requires
        t.insert_refusal(names, values) is Some,
    ensures
        t.insert(names, values) == t,
{
}

/// A row that gives, for a column, a value that is neither null nor of
/// the column's type is refused with `InvalidTypes`, and the rows stay as
/// they are. This speaks of rows whose names the table accepts: as many
/// values as names, every name that of a column, every required column
/// named.
pub proof fn law_insert_type_mismatch(
    t: TableView,
    names: Seq<Seq<char>>,
    values: Seq<Datum>,
    i: int,
)
    requires
        t.names_refusal(names, values.len()) is None,
        0 <= i < names.len(),
        !values[i].fits(t.column(names[i]).class),
    ensures
        t.insert_refusal(names, values) matches Some(Refusal::InvalidTypes(_, _, _)),
        t.insert(names, values).records == t.records,
{
    lemma_first_mismatch(t, names, values, 0);
    assert(mismatch_at(t, names, values, i));
}

/// A row that leaves out a required column is refused with
/// `RequiredFieldNotExist`, and the rows stay as they are. This speaks of
/// rows with as many values as names, every name that of a column.
pub proof fn law_insert_missing_required(
    t: TableView,
    names: Seq<Seq<char>>,
    values: Seq<Datum>,
    j: int,
)
    requires
        names.len() == values.len(),
        t.first_unknown_from(names, 0) is None,
        0 <= j < t.columns.len(),
        t.columns[j].required,
        position(names, t.columns[j].name) is None,
    ensures
        t.insert_refusal(names, values) matches Some(Refusal::RequiredFieldNotExist(_)),
        t.insert(names, values).records == t.records,
{
    lemma_first_missing(t, names, 0);
    assert(missing_at(t, names, j));
}

/// The row that an insertion appends has one field for every column, in
/// the order of the columns: the value given under the column's name, or
/// the null value of the column's type where none was given.
pub proof fn law_inserted_row(t: TableView, names: Seq<Seq<char>>, values: Seq<Datum>, j: int)
    requires
        t.insert_refusal(names, values) is None,
        0 <= j < t.columns.len(),
    ensures
        t.insert(names, values).records.last().fields.len() == t.columns.len(),
        t.insert(names, values).records.last().fields[j].0 == t.columns[j].name,
        position(names, t.columns[j].name) matches Some(i) ==> t.insert(
            names,
            values,
        ).records.last().fields[j].1 == values[i],
        position(names, t.columns[j].name) is None ==> t.insert(
            names,
            values,
        ).records.last().fields[j].1 == t.columns[j].class.null_datum(),
{
}

/// Reading a field back from the nested structure of a table gives the
/// text form of the value that the row holds there: the member `records`
/// is an array, its item `i` an object, and the member `name` of that
/// object has the text of the value of row `i` under `name`. This speaks
/// of every value but an instant, which the structure holds as the text
/// of its text form.
pub proof fn law_structured_round_trip(t: TableView, i: int, name: Seq<char>)
    requires
        0 <= i < t.records.len(),
        t.records[i].get(name) is Some,
        !(t.records[i].get(name)->0 is Time),
    ensures
        t.structured().member("records"@) == Some(Tree::Array(t.structured_rows())),
        t.structured().member("records"@)->0.item(i) == Some(t.records[i].structured()),
        t.records[i].structured().member(name) is Some,
        t.records[i].structured().member(name)->0.scalar_text() == t.records[i].get(
            name,
        )->0.rendered(),
{
    reveal_strlit("name");
    reveal_strlit("count");
    reveal_strlit("records");
    let top = t.structured();
    assert(top.keys() =~= seq!["name"@, "count"@, "records"@]);
    lemma_position(top.keys(), "records"@);
    assert("name"@[0] != "records"@[0]);
    assert("count"@[0] != "records"@[0]);
    let row = t.records[i];
    assert(row.structured().keys() =~= row.names());
    lemma_position(row.names(), name);
}

/// The nested structure of a table names its rows and counts them.
pub proof fn law_structured_head(t: TableView)
    ensures
        t.structured().member("name"@) == Some(Tree::Text(t.name)),
        t.structured().member("count"@) == Some(Tree::Integer(t.records.len() as int)),
{
    reveal_strlit("name");
    reveal_strlit("count");
    reveal_strlit("records");
    let top = t.structured();
    assert(top.keys() =~= seq!["name"@, "count"@, "records"@]);
    lemma_position(top.keys(), "name"@);
    lemma_position(top.keys(), "count"@);
    assert("name"@[0] != "count"@[0]);
}

} // verus!
