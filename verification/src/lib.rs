//! A compact, immutable container for many small strings.
//!
//! Strings are appended to a [`StringTableBuilder`], which hands out one
//! [`StringId`] per string, and are read back from the [`StringTable`] that
//! the builder is turned into.

pub mod builder;
pub mod error;
pub mod layout;
pub mod table;
pub mod types;

pub use builder::{StringPoolBuilder, StringTableBuilder};
pub use error::{Error, ValidationError};
pub use table::{StringPool, StringPoolIter, StringTable, StringTableIter};
pub use types::{Offset, StringId, StringIndex};
