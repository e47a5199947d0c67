//! One row of a table.

use vstd::prelude::*;
use crate::basic_elements::names::{position, position_from};
use crate::basic_elements::outcome::FieldError;
use crate::basic_elements::value::{Datum, TData};

verus! {

/// One field of a record: a name and the value under it.
#[derive(Debug)]
pub struct Field {
    pub name: String,
    pub value: TData,
}

/// A row: its number, and its fields in the order in which they were set.
#[derive(Debug)]
pub struct Record {
    index: usize,
    fields: Vec<Field>,
}

/// What a record is: the model that contracts speak of.
pub struct RecordView {
    pub id: nat,
    /// The fields in order, each a name and a value.
    pub fields: Seq<(Seq<char>, Datum)>,
}

impl RecordView {
    /// The names of the fields, in order.
    pub open spec fn names(self) -> Seq<Seq<char>> {
        Seq::new(self.fields.len(), |i: int| self.fields[i].0)
    }

    /// The value of the field `name`, where the record has that field.
    pub open spec fn get(self, name: Seq<char>) -> Option<Datum> {
        match position(self.names(), name) {
            Some(i) => Some(self.fields[i].1),
            None => None,
        }
    }

    /// The value of the field `name`, or the null value where the record
    /// has no such field.
    pub open spec fn value_or_null(self, name: Seq<char>) -> Datum {
        match self.get(name) {
            Some(value) => value,
            None => Datum::Null,
        }
    }

    /// The record with `value` in the field `name`: in place of the value
    /// that was there, or as a new last field.
    pub open spec fn set(self, name: Seq<char>, value: Datum) -> RecordView {
        match position(self.names(), name) {
            Some(i) => RecordView { fields: self.fields.update(i, (name, value)), ..self },
            None => RecordView { fields: self.fields.push((name, value)), ..self },
        }
    }
}

impl View for Field {
    type V = (Seq<char>, Datum);

    open spec fn view(&self) -> (Seq<char>, Datum) {
        (self.name@, self.value@)
    }
}

impl DeepView for Field {
    type V = (Seq<char>, Datum);

    open spec fn deep_view(&self) -> (Seq<char>, Datum) {
        self.view()
    }
}

impl Clone for Field {
    fn clone(&self) -> (r: Self)
        ensures
            r == *self,
    {
        Field { name: self.name.clone(), value: self.value.clone() }
    }
}

impl View for Record {
    type V = RecordView;

    closed spec fn view(&self) -> RecordView {
        RecordView { id: self.index as nat, fields: self.fields.deep_view() }
    }
}

impl DeepView for Record {
    type V = RecordView;

    open spec fn deep_view(&self) -> RecordView {
        self.view()
    }
}

impl Clone for Record {
    fn clone(&self) -> (r: Self)
        ensures
            r@ == self@,
    {
        let mut fields: Vec<Field> = Vec::new();
        let mut i: usize = 0;
        while i < self.fields.len()
            invariant
                i <= self.fields.len(),
                fields.len() == i,
                forall|j: int| 0 <= j < i ==> fields[j]@ == self.fields[j]@,
            decreases self.fields.len() - i,
        {
            fields.push(self.fields[i].clone());
            i = i + 1;
        }
        proof {
            assert(fields.deep_view() =~= self.fields.deep_view());
        }
        Record { index: self.index, fields }
    }
}

impl Record {
    /// A record of number `index`, without fields.
    pub fn new(index: usize) -> (r: Record)
        ensures
            r@ == (RecordView { id: index as nat, fields: Seq::empty() }),
    {
        let r = Record { index, fields: Vec::new() };
        proof {
            assert(r.fields.deep_view() =~= Seq::empty());
        }
        r
    }

    /// A record of number `index` with the fields given, in their order.
    pub fn with_fields(index: usize, fields: Vec<Field>) -> (r: Record)
        ensures
            r@ == (RecordView { id: index as nat, fields: fields.deep_view() }),
    {
        Record { index, fields }
    }

    /// The number of the record.
    pub fn index(&self) -> (r: usize)
        ensures
            r == self@.id,
    {
        self.index
    }

    /// The fields of the record, in order.
    pub fn fields(&self) -> (r: &Vec<Field>)
        ensures
            r.deep_view() == self@.fields,
    {
        &self.fields
    }

    /// The place of the field `name`.
    fn find(&self, name: &String) -> (r: Option<usize>)
        ensures
            match r {
                Some(i) => position(self@.names(), name@) == Some(i as int) && i
                    < self.fields.len(),
                None => position(self@.names(), name@) is None,
            },
    {
        let ghost names = self@.names();
        let mut i: usize = 0;
        while i < self.fields.len()
            invariant
                i <= self.fields.len(),
                names == self@.names(),
                position(names, name@) == position_from(names, name@, i as int),
            decreases self.fields.len() - i,
        {
            if self.fields[i].name == *name {
                return Some(i);
            }
            i = i + 1;
        }
        None
    }

    /// Reads the field `name`.
    pub fn get(&self, name: &str) -> (r: Result<&TData, FieldError>)
        ensures
            match r {
                Ok(value) => self@.get(name@) == Some(value@),
                Err(e) => self@.get(name@) is None && e@ == name@,
            },
    {
        let key = name.to_owned();
        match self.find(&key) {
            Some(i) => Ok(&self.fields[i].value),
            None => Err(FieldError::NotFound(key)),
        }
    }

    /// Writes `value` into the field `name`, which is added where the
    /// record has none of that name.
    pub fn set(&mut self, name: String, value: TData)
        ensures
            final(self)@ == old(self)@.set(name@, value@),
    {
        let ghost before = self@;
        match self.find(&name) {
            Some(i) => {
                self.fields.set(i, Field { name, value });
                proof {
                    assert(self.fields.deep_view() =~= before.fields.update(
                        i as int,
                        (name@, value@),
                    ));
                }
            },
            None => {
                self.fields.push(Field { name, value });
                proof {
                    assert(self.fields.deep_view() =~= before.fields.push((name@, value@)));
                }
            },
        }
    }
}

} // verus!
