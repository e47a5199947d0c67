//! One column of a table.

use vstd::prelude::*;
use crate::basic_elements::value::DataType;

verus! {

/// A column: its name, the type of its values, its place among the
/// columns of its table, and whether every row must give it a value.
#[derive(Debug)]
pub struct TColumn {
    pub name: String,
    pub class: DataType,
    pub index: usize,
    pub required: bool,
}

/// What a column is: the model that contracts speak of.
pub struct ColumnView {
    pub name: Seq<char>,
    pub class: DataType,
    pub index: nat,
    pub required: bool,
}

impl View for TColumn {
    type V = ColumnView;

    open spec fn view(&self) -> ColumnView {
        ColumnView {
            name: self.name@,
            class: self.class,
            index: self.index as nat,
            required: self.required,
        }
    }
}

impl DeepView for TColumn {
    type V = ColumnView;

    open spec fn deep_view(&self) -> ColumnView {
        self.view()
    }
}

impl Clone for TColumn {
    fn clone(&self) -> (r: Self)
        ensures
            r == *self,
    {
        TColumn {
            name: self.name.clone(),
            class: self.class,
            index: self.index,
            required: self.required,
        }
    }
}

impl TColumn {
    /// A column of the name, type, place and demand given.
    pub fn new(name: String, class: DataType, index: usize, required: bool) -> (r: TColumn)
        ensures
            r@ == (ColumnView { name: name@, class, index: index as nat, required }),
    {
        TColumn { name, class, index, required }
    }
}

} // verus!
