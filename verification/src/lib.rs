//! Operations on JSON documents that are held as `ijson` values.

pub mod json;
pub mod values;
pub mod index;
pub mod number;
pub mod error;
pub mod path;
pub mod merge;
pub mod text;
pub mod ops;
pub mod holder;
pub mod memory;
pub mod manager;
pub mod laws;
