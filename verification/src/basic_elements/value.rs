//! Cell values and their types.

use vstd::prelude::*;
use crate::text::{decimal, push_decimal, push_str, string_of};
use crate::trusted::{render_utc, utc_text};

verus! {

/// The type of a column, and of a value.
#[derive(Debug, Clone, Copy, PartialEq, Eq, Structural)]
pub enum DataType {
    Text,
    Integer,
    Float,
    Boolean,
    Time,
    Null,
}

/// A double-precision binary floating-point number as a table holds it:
/// its 64 bits, and the decimal text under which it is shown and
/// compared. Whoever has the number itself supplies both.
#[derive(Debug)]
pub struct Real {
    pub bits: u64,
    pub text: String,
}

impl Clone for Real {
    fn clone(&self) -> (r: Self)
        ensures
            r == *self,
    {
        Real { bits: self.bits, text: self.text.clone() }
    }
}

/// An instant in UTC that can be shown: a number of seconds since the
/// start of 1970, and the nanoseconds past that second.
#[derive(Debug, Clone, Copy)]
pub struct Timestamp {
    secs: i64,
    nanos: u32,
}

impl Timestamp {
    #[verifier::type_invariant]
    closed spec fn showable(self) -> bool {
        utc_text(self.secs as int, self.nanos as int) is Some
    }

    /// The seconds since the start of 1970.
    pub closed spec fn seconds(self) -> int {
        self.secs as int
    }

    /// The nanoseconds past the second.
    pub closed spec fn nanoseconds(self) -> int {
        self.nanos as int
    }

    /// The instant `nanos` nanoseconds after second `secs`, where it can
    /// be shown.
    pub fn new(secs: i64, nanos: u32) -> (r: Option<Timestamp>)
        ensures
            r is Some <==> utc_text(secs as int, nanos as int) is Some,
            r matches Some(t) ==> t.seconds() == secs && t.nanoseconds() == nanos,
    {
        match render_utc(secs, nanos) {
            Some(_) => Some(Timestamp { secs, nanos }),
            None => None,
        }
    }

    /// The start of 1970.
    pub fn epoch() -> (r: Timestamp)
        ensures
            r.seconds() == 0,
            r.nanoseconds() == 0,
            utc_text(0, 0) is Some,
    {
        // Asking for the text shows that this instant has one.
        let _shown = render_utc(0, 0);
        Timestamp { secs: 0, nanos: 0 }
    }

    /// The seconds since the start of 1970.
    pub fn secs(&self) -> (r: i64)
        ensures
            r == self.seconds(),
    {
        self.secs
    }

    /// The nanoseconds past the second.
    pub fn nanos(&self) -> (r: u32)
        ensures
            r == self.nanoseconds(),
    {
        self.nanos
    }

    /// The text of the instant.
    pub fn stringify(&self) -> (r: String)
        ensures
            utc_text(self.seconds(), self.nanoseconds()) == Some(r@),
    {
        proof {
            use_type_invariant(self);
        }
        match render_utc(self.secs, self.nanos) {
            Some(s) => s,
            None => String::new(),
        }
    }
}

/// One cell of a table.
#[derive(Debug)]
pub enum TData {
    Text(String),
    Integer(i64),
    Float(Real),
    Boolean(bool),
    Time(Timestamp),
    Null,
}

/// What a cell value is: the model that contracts speak of.
pub enum Datum {
    Text(Seq<char>),
    Integer(int),
    /// The bit pattern and the decimal text.
    Float(u64, Seq<char>),
    Boolean(bool),
    /// Seconds since the start of 1970, and nanoseconds past the second.
    Time(int, int),
    Null,
}

impl Datum {
    /// The type of the value.
    pub open spec fn tag(self) -> DataType {
        match self {
            Datum::Text(_) => DataType::Text,
            Datum::Integer(_) => DataType::Integer,
            Datum::Float(_, _) => DataType::Float,
            Datum::Boolean(_) => DataType::Boolean,
            Datum::Time(_, _) => DataType::Time,
            Datum::Null => DataType::Null,
        }
    }

    /// Whether the value can be shown: an instant must be one that has a
    /// text.
    pub open spec fn valid(self) -> bool {
        self matches Datum::Time(secs, nanos) ==> utc_text(secs, nanos) is Some
    }

    /// The text form: text and instants between double quotes, numbers and
    /// truth values bare, the null value as `null`.
    pub open spec fn rendered(self) -> Seq<char> {
        match self {
            Datum::Text(s) => seq!['"'] + s + seq!['"'],
            Datum::Integer(i) => decimal(i),
            Datum::Float(_, text) => text,
            Datum::Boolean(b) => if b {
                "true"@
            } else {
                "false"@
            },
            Datum::Time(secs, nanos) => seq!['"'] + utc_text(secs, nanos)->0 + seq!['"'],
            Datum::Null => "null"@,
        }
    }

    /// Whether a column of type `class` takes the value: its type is the
    /// column's, or it is the null value.
    pub open spec fn fits(self, class: DataType) -> bool {
        self is Null || self.tag() == class
    }
}

impl View for TData {
    type V = Datum;

    open spec fn view(&self) -> Datum {
        match *self {
            TData::Text(s) => Datum::Text(s@),
            TData::Integer(i) => Datum::Integer(i as int),
            TData::Float(x) => Datum::Float(x.bits, x.text@),
            TData::Boolean(b) => Datum::Boolean(b),
            TData::Time(t) => Datum::Time(t.seconds(), t.nanoseconds()),
            TData::Null => Datum::Null,
        }
    }
}

impl DeepView for TData {
    type V = Datum;

    open spec fn deep_view(&self) -> Datum {
        self.view()
    }
}

impl Clone for TData {
    fn clone(&self) -> (r: Self)
        ensures
            r == *self,
    {
        match self {
            TData::Text(s) => TData::Text(s.clone()),
            TData::Integer(i) => TData::Integer(*i),
            TData::Float(x) => TData::Float(x.clone()),
            TData::Boolean(b) => TData::Boolean(*b),
            TData::Time(t) => TData::Time(*t),
            TData::Null => TData::Null,
        }
    }
}

impl DataType {
    /// The number that stands for the type.
    pub open spec fn code(self) -> nat {
        match self {
            DataType::Text => 1,
            DataType::Integer => 2,
            DataType::Float => 3,
            DataType::Boolean => 4,
            DataType::Time => 5,
            DataType::Null => 0,
        }
    }

    /// The value that a column of this type holds where none was given.
    pub open spec fn null_datum(self) -> Datum {
        match self {
            DataType::Text => Datum::Text("0"@),
            DataType::Integer => Datum::Integer(0),
            DataType::Float => Datum::Float(0, "0"@),
            DataType::Boolean => Datum::Boolean(false),
            DataType::Time => Datum::Time(0, 0),
            DataType::Null => Datum::Null,
        }
    }

    /// The number that stands for the type.
    pub fn get_type(&self) -> (r: usize)
        ensures
            r == self.code(),
    {
        match self {
            DataType::Text => 1,
            DataType::Integer => 2,
            DataType::Float => 3,
            DataType::Boolean => 4,
            DataType::Time => 5,
            DataType::Null => 0,
        }
    }

    /// The value that a column of this type holds where none was given.
    pub fn get_null(&self) -> (r: TData)
        ensures
            r@ == self.null_datum(),
            r@.valid(),
    {
        match self {
            DataType::Text => TData::Text("0".to_owned()),
            DataType::Integer => TData::Integer(0),
            DataType::Float => TData::Float(Real { bits: 0, text: "0".to_owned() }),
            DataType::Boolean => TData::Boolean(false),
            DataType::Time => TData::Time(Timestamp::epoch()),
            DataType::Null => TData::Null,
        }
    }
}

impl TData {
    /// The type of the value.
    pub fn get_type(&self) -> (r: DataType)
        ensures
            r == self@.tag(),
    {
        match self {
            TData::Text(_) => DataType::Text,
            TData::Integer(_) => DataType::Integer,
            TData::Float(_) => DataType::Float,
            TData::Boolean(_) => DataType::Boolean,
            TData::Time(_) => DataType::Time,
            TData::Null => DataType::Null,
        }
    }

    /// The characters of the text form.
    pub fn rendered_chars(&self) -> (r: Vec<char>)
        ensures
            r@ == self@.rendered(),
            self@.valid(),
    {
        let mut out: Vec<char> = Vec::new();
        match self {
            TData::Text(s) => {
                out.push('"');
                push_str(&mut out, s.as_str());
                out.push('"');
            },
            TData::Integer(i) => {
                push_decimal(&mut out, *i as i128);
            },
            TData::Float(x) => {
                push_str(&mut out, x.text.as_str());
            },
            TData::Boolean(b) => {
                if *b {
                    push_str(&mut out, "true");
                } else {
                    push_str(&mut out, "false");
                }
            },
            TData::Time(t) => {
                let shown = t.stringify();
                out.push('"');
                push_str(&mut out, shown.as_str());
                out.push('"');
            },
            TData::Null => {
                push_str(&mut out, "null");
            },
        }
        proof {
            assert(out@ =~= self@.rendered());
        }
        out
    }

    /// The text form of the value.
    pub fn stringify(&self) -> (r: String)
        ensures
            r@ == self@.rendered(),
    {
        let chars = self.rendered_chars();
        string_of(&chars)
    }
}

} // verus!
