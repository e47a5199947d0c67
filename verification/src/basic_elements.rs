//! The table and what it is made of.

pub mod value;
pub mod order;
pub mod names;
pub mod outcome;
pub mod column;
pub mod record;
pub mod schema;
pub mod table;
pub mod query;
pub mod layout;
pub mod formatter;
pub mod structured;
pub mod laws;

pub use self::column::TColumn;
pub use self::formatter::TableForameter;
pub use self::outcome::{FieldError, TableResult};
pub use self::record::{Field, Record};
pub use self::structured::StructuredValue;
pub use self::table::Table;
pub use self::value::{DataType, Real, TData, Timestamp};
