//! A typed, in-memory table: named and typed columns, validated rows,
//! selection by predicate, and rendering as a text grid or as a nested
//! structure. Two small companions come with it: helpers over vectors
//! and a doubly linked list.

pub mod trusted;
pub mod text;
pub mod picking;
pub mod basic_elements;
pub mod array_utils;
pub mod list_utils;
