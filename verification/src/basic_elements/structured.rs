//! The nested structure under which a table is handed on.

use vstd::prelude::*;
use crate::basic_elements::names::{position, position_from};
use crate::basic_elements::record::{Record, RecordView};
use crate::basic_elements::schema::TableView;
use crate::basic_elements::table::Table;
use crate::basic_elements::value::{Datum, Real, TData};
use crate::text::{decimal, push_decimal, push_str, string_of};

verus! {

/// A value of the nested structure.
#[derive(Debug)]
pub enum StructuredValue {
    Null,
    Boolean(bool),
    Integer(i128),
    Float(Real),
    Text(String),
    Array(Vec<StructuredValue>),
    /// The members in order, each a key and a value.
    Object(Vec<(String, StructuredValue)>),
}

/// What a structured value is: the model that contracts speak of.
pub enum Tree {
    Null,
    Boolean(bool),
    Integer(int),
    /// The bit pattern and the decimal text.
    Float(u64, Seq<char>),
    Text(Seq<char>),
    Array(Seq<Tree>),
    /// The members in order, each a key and a value.
    Object(Seq<(Seq<char>, Tree)>),
}

/// The model of a structured value.
pub open spec fn tree_of(v: StructuredValue) -> Tree
    decreases v,
{
    match v {
        StructuredValue::Null => Tree::Null,
        StructuredValue::Boolean(b) => Tree::Boolean(b),
        StructuredValue::Integer(i) => Tree::Integer(i as int),
        StructuredValue::Float(x) => Tree::Float(x.bits, x.text@),
        StructuredValue::Text(s) => Tree::Text(s@),
        StructuredValue::Array(items) => Tree::Array(
            Seq::new(
                items@.len(),
                |i: int|
                    if 0 <= i < items@.len() {
                        tree_of(items@[i])
                    } else {
                        Tree::Null
                    },
            ),
        ),
        StructuredValue::Object(members) => Tree::Object(
            Seq::new(
                members@.len(),
                |i: int|
                    if 0 <= i < members@.len() {
                        (members@[i].0@, tree_of(members@[i].1))
                    } else {
                        (Seq::empty(), Tree::Null)
                    },
            ),
        ),
    }
}

impl View for StructuredValue {
    type V = Tree;

    open spec fn view(&self) -> Tree {
        tree_of(*self)
    }
}

impl Tree {
    /// The keys of the members of an object, in order.
    pub open spec fn keys(self) -> Seq<Seq<char>> {
        Seq::new(self->Object_0.len(), |k: int| self->Object_0[k].0)
    }

    /// The value of the first member `key` of an object.
    pub open spec fn member(self, key: Seq<char>) -> Option<Tree> {
        match self {
            Tree::Object(members) => match position(self.keys(), key) {
                Some(k) => Some(members[k].1),
                None => None,
            },
            _ => None,
        }
    }

    /// Item `i` of an array.
    pub open spec fn item(self, i: int) -> Option<Tree> {
        match self {
            Tree::Array(items) => if 0 <= i < items.len() {
                Some(items[i])
            } else {
                None
            },
            _ => None,
        }
    }

    /// The text of a value that is neither array nor object: text between
    /// double quotes, numbers and truth values bare, null as `null`. An
    /// array or an object has the empty text.
    pub open spec fn scalar_text(self) -> Seq<char> {
        match self {
            Tree::Null => "null"@,
            Tree::Boolean(b) => if b {
                "true"@
            } else {
                "false"@
            },
            Tree::Integer(i) => decimal(i),
            Tree::Float(_, text) => text,
            Tree::Text(s) => seq!['"'] + s + seq!['"'],
            Tree::Array(_) => Seq::empty(),
            Tree::Object(_) => Seq::empty(),
        }
    }
}

impl StructuredValue {
    /// The value of the first member `key`, where this is an object that
    /// has one.
    pub fn member(&self, key: &str) -> (r: Option<&StructuredValue>)
        ensures
            match r {
                Some(value) => self@.member(key@) == Some(value@),
                None => self@.member(key@) is None,
            },
    {
        match self {
            StructuredValue::Object(members) => {
                let wanted = key.to_owned();
                let ghost keys = self@.keys();
                let mut k: usize = 0;
                while k < members.len()
                    invariant
                        k <= members.len(),
                        self == StructuredValue::Object(*members),
                        keys == self@.keys(),
                        wanted@ == key@,
                        position(keys, key@) == position_from(keys, key@, k as int),
                    decreases members.len() - k,
                {
                    if members[k].0 == wanted {
                        assert(members@[k as int].1@ == self@->Object_0[k as int].1);
                        return Some(&members[k].1);
                    }
                    k = k + 1;
                }
                None
            },
            _ => None,
        }
    }

    /// Item `i`, where this is an array that has one.
    pub fn item(&self, i: usize) -> (r: Option<&StructuredValue>)
        ensures
            match r {
                Some(value) => self@.item(i as int) == Some(value@),
                None => self@.item(i as int) is None,
            },
    {
        match self {
            StructuredValue::Array(items) => {
                if i < items.len() {
                    assert(items@[i as int]@ == self@->Array_0[i as int]);
                    Some(&items[i])
                } else {
                    None
                }
            },
            _ => None,
        }
    }

    /// The text of a value that is neither array nor object.
    pub fn scalar_text(&self) -> (r: String)
        ensures
            r@ == self@.scalar_text(),
    {
        let mut out: Vec<char> = Vec::new();
        match self {
            StructuredValue::Null => {
                push_str(&mut out, "null");
            },
            StructuredValue::Boolean(b) => {
                if *b {
                    push_str(&mut out, "true");
                } else {
                    push_str(&mut out, "false");
                }
            },
            StructuredValue::Integer(i) => {
                push_decimal(&mut out, *i);
            },
            StructuredValue::Float(x) => {
                push_str(&mut out, x.text.as_str());
            },
            StructuredValue::Text(s) => {
                out.push('"');
                push_str(&mut out, s.as_str());
                out.push('"');
            },
            StructuredValue::Array(_) => {},
            StructuredValue::Object(_) => {},
        }
        proof {
            assert(out@ =~= self@.scalar_text());
        }
        string_of(&out)
    }
}

impl Datum {
    /// The value in the nested structure: text as text, numbers as
    /// numbers, truth values as truth values, an instant as the text of
    /// its text form, double quotes included, the null value as null.
    pub open spec fn structured(self) -> Tree {
        match self {
            Datum::Text(s) => Tree::Text(s),
            Datum::Integer(i) => Tree::Integer(i),
            Datum::Float(bits, text) => Tree::Float(bits, text),
            Datum::Boolean(b) => Tree::Boolean(b),
            Datum::Time(_, _) => Tree::Text(self.rendered()),
            Datum::Null => Tree::Null,
        }
    }
}

impl RecordView {
    /// The record in the nested structure: an object with one member for
    /// every field, in their order.
    pub open spec fn structured(self) -> Tree {
        Tree::Object(
            Seq::new(
                self.fields.len(),
                |k: int| (self.fields[k].0, self.fields[k].1.structured()),
            ),
        )
    }
}

impl TableView {
    /// The rows in the nested structure, in order.
    pub open spec fn structured_rows(self) -> Seq<Tree> {
        Seq::new(self.records.len(), |i: int| self.records[i].structured())
    }

    /// The table in the nested structure: an object of the name, the
    /// number of rows, and the rows.
    pub open spec fn structured(self) -> Tree {
        Tree::Object(
            seq![
                ("name"@, Tree::Text(self.name)),
                ("count"@, Tree::Integer(self.records.len() as int)),
                ("records"@, Tree::Array(self.structured_rows())),
            ],
        )
    }
}

impl TData {
    /// The value in the nested structure.
    pub fn to_json(&self) -> (r: StructuredValue)
        ensures
            r@ == self@.structured(),
    {
        match self {
            TData::Text(s) => StructuredValue::Text(s.clone()),
            TData::Integer(i) => StructuredValue::Integer(*i as i128),
            TData::Float(x) => StructuredValue::Float(x.clone()),
            TData::Boolean(b) => StructuredValue::Boolean(*b),
            TData::Time(_) => StructuredValue::Text(self.stringify()),
            TData::Null => StructuredValue::Null,
        }
    }
}

impl Record {
    /// The record in the nested structure.
    pub fn to_json(&self) -> (r: StructuredValue)
        ensures
            r@ == self@.structured(),
    {
        let fields = self.fields();
        let mut members: Vec<(String, StructuredValue)> = Vec::new();
        let mut k: usize = 0;
        while k < fields.len()
            invariant
                k <= fields.len(),
                fields.deep_view() == self@.fields,
                members.len() == k,
                forall|m: int|
                    0 <= m < k ==> (#[trigger] members[m]).0@ == self@.fields[m].0
                        && members[m].1@ == self@.fields[m].1.structured(),
            decreases fields.len() - k,
        {
            members.push((fields[k].name.clone(), fields[k].value.to_json()));
            k = k + 1;
        }
        let r = StructuredValue::Object(members);
        proof {
            assert(r@->Object_0 =~= self@.structured()->Object_0);
        }
        r
    }
}

impl Table {
    /// The table in the nested structure.
    pub fn to_json(&self) -> (r: StructuredValue)
        ensures
            r@ == self@.structured(),
    {
        let records = self.records();
        let mut rows: Vec<StructuredValue> = Vec::new();
        let mut i: usize = 0;
        while i < records.len()
            invariant
                i <= records.len(),
                records.deep_view() == self@.records,
                rows.len() == i,
                forall|m: int| 0 <= m < i ==> (#[trigger] rows[m])@ == self@.records[m].structured(),
            decreases records.len() - i,
        {
            rows.push(records[i].to_json());
            i = i + 1;
        }
        let count = records.len() as i128;
        let list = StructuredValue::Array(rows);
        proof {
            assert(list@->Array_0 =~= self@.structured_rows());
        }
        let mut members: Vec<(String, StructuredValue)> = Vec::new();
        members.push(("name".to_owned(), StructuredValue::Text(self.name().clone())));
        members.push(("count".to_owned(), StructuredValue::Integer(count)));
        members.push(("records".to_owned(), list));
        let r = StructuredValue::Object(members);
        proof {
            assert(records.deep_view().len() == records.len());
            assert(members@[0].1@ == Tree::Text(self@.name));
            assert(members@[1].1@ == Tree::Integer(count as int));
            assert(members@[2].1@ == Tree::Array(self@.structured_rows()));
            assert(r@->Object_0 =~= self@.structured()->Object_0);
        }
        r
    }
}

} // verus!
