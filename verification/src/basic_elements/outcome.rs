//! Why an operation on a table or on a record was refused.

use vstd::prelude::*;
use crate::basic_elements::value::DataType;

verus! {

/// Why a table refused a column or a row.
#[derive(Debug)]
pub enum TableResult {
    /// The table has a column of this name already.
    ColumnExists(String),
    /// The table has no column of this name.
    ColumnNotExists(String),
    /// The column of this name has the first type, the value given for it
    /// the second.
    InvalidTypes(String, DataType, DataType),
    /// No value was given for the required column of this name.
    RequiredFieldNotExist(String),
    /// There are not as many values as names.
    ValuesLenNeqPropertiesName,
}

/// What a refusal is: the model that contracts speak of.
pub enum Refusal {
    ColumnExists(Seq<char>),
    ColumnNotExists(Seq<char>),
    InvalidTypes(Seq<char>, DataType, DataType),
    RequiredFieldNotExist(Seq<char>),
    ValuesLenNeqPropertiesName,
}

impl Refusal {
    /// The number that stands for the kind of refusal.
    pub open spec fn code(self) -> nat {
        match self {
            Refusal::ColumnExists(_) => 1,
            Refusal::ColumnNotExists(_) => 2,
            Refusal::InvalidTypes(_, _, _) => 3,
            Refusal::RequiredFieldNotExist(_) => 4,
            Refusal::ValuesLenNeqPropertiesName => 5,
        }
    }
}

impl View for TableResult {
    type V = Refusal;

    open spec fn view(&self) -> Refusal {
        match *self {
            TableResult::ColumnExists(name) => Refusal::ColumnExists(name@),
            TableResult::ColumnNotExists(name) => Refusal::ColumnNotExists(name@),
            TableResult::InvalidTypes(name, expected, actual) => Refusal::InvalidTypes(
                name@,
                expected,
                actual,
            ),
            TableResult::RequiredFieldNotExist(name) => Refusal::RequiredFieldNotExist(name@),
            TableResult::ValuesLenNeqPropertiesName => Refusal::ValuesLenNeqPropertiesName,
        }
    }
}

impl TableResult {
    /// The number that stands for the kind of refusal.
    pub fn get_type(&self) -> (r: usize)
        ensures
            r == self@.code(),
    {
        match self {
            TableResult::ColumnExists(_) => 1,
            TableResult::ColumnNotExists(_) => 2,
            TableResult::InvalidTypes(_, _, _) => 3,
            TableResult::RequiredFieldNotExist(_) => 4,
            TableResult::ValuesLenNeqPropertiesName => 5,
        }
    }
}

/// Two refusals are equal when they are of the same kind, whatever they
/// name.
impl PartialEq for TableResult {
    fn eq(&self, other: &Self) -> (r: bool) {
        self.get_type() == other.get_type()
    }
}

impl vstd::std_specs::cmp::PartialEqSpecImpl for TableResult {
    open spec fn obeys_eq_spec() -> bool {
        true
    }

    open spec fn eq_spec(&self, other: &Self) -> bool {
        self@.code() == other@.code()
    }
}

/// Why a field of a record could not be read.
#[derive(Debug)]
pub enum FieldError {
    /// The record has no field of this name.
    NotFound(String),
}

impl View for FieldError {
    type V = Seq<char>;

    /// The name that was not found.
    open spec fn view(&self) -> Seq<char> {
        match *self {
            FieldError::NotFound(name) => name@,
        }
    }
}

} // verus!
