//! Error types for table construction and for layout validation.

use vstd::prelude::*;

verus! {

/// Errors produced while appending to a builder.
#[derive(Debug, Clone, PartialEq, Eq)]
pub enum Error {
    /// The number of strings exceeded what the configured index type can
    /// represent.
    TooManyStrings {
        /// Attempted number of strings.
        strings: usize,
        /// Index type used by the builder.
        id_type: &'static str,
    },
    /// The total byte length exceeded what the configured offset type can
    /// represent.
    TooManyBytesForOffsetType {
        /// Attempted byte length.
        bytes: usize,
        /// Offset type used by the builder.
        offset_type: &'static str,
    },
}

/// Ways in which a byte buffer and an offset sequence can fail to form a
/// table.
#[derive(Debug, Clone, PartialEq, Eq)]
pub enum ValidationError {
    /// The number of strings does not fit in the index type.
    TooManyStrings {
        /// Number of strings.
        strings: usize,
        /// Index type of the table.
        id_type: &'static str,
    },
    /// The byte length does not fit in the offset type.
    TooManyBytesForOffsetType {
        /// Byte length of the buffer.
        bytes: usize,
        /// Offset type of the table.
        offset_type: &'static str,
    },
    /// The offset sequence is empty: it must end with a sentinel.
    MissingSentinelOffset,
    /// The final offset differs from the byte length.
    LastOffsetMismatch {
        /// The final offset.
        found: usize,
        /// The byte length.
        expected: usize,
    },
    /// An offset points past the end of the buffer.
    OffsetOutOfBounds {
        /// Position of the offset.
        index: usize,
        /// The offset.
        offset: usize,
        /// The byte length.
        bytes_len: usize,
    },
    /// An offset is smaller than the one before it.
    OffsetsNotMonotonic {
        /// Position of the offset.
        index: usize,
        /// The offset before it.
        previous: usize,
        /// The offset.
        current: usize,
    },
    /// The bytes of a string are not valid UTF-8.
    InvalidUtf8 {
        /// Position of the string.
        index: usize,
    },
    /// In padded mode, a string's region is empty, so it has no terminator.
    NullPaddedStringMissingTerminatorByte {
        /// Position of the string.
        index: usize,
    },
    /// In padded mode, a string's region does not end with a zero byte.
    NullPaddedStringMissingTrailingNul {
        /// Position of the string.
        index: usize,
    },
}

} // verus!
