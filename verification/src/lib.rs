//! A small typed query layer between application structs and a relational
//! database: full-text search, autocomplete lookup and fetch-by-primary-key
//! behind uniform generic operations, together with a polymorphic primary-key
//! value and a lightweight identifier projection for search results.

pub mod codec;
pub mod postgres;
pub mod ui;
