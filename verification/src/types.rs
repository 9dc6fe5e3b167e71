//! Integer contracts and the handle type used by the table.

pub mod offset;
mod sealed;
pub mod string_id;
pub mod string_index;

pub use offset::Offset;
pub use string_id::StringId;
pub use string_index::StringIndex;
