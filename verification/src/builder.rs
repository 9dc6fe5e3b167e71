//! Builder for creating an immutable [`StringTable`].
//!
//! The builder stores data in growable vectors while constructing.
//! [`StringTableBuilder::build`] converts those vectors to boxed slices,
//! making the final table immutable and compact.

use crate::error::Error;
use crate::layout::{
    layout_ok, lemma_packed_starts_at_zero, lemma_push, packed_bytes, packed_offsets, pad_len,
    positions, pushed_bytes, strings,
};
use crate::table::{into_boxed, StringTable};
use crate::types::offset::{zero_offset, Offset};
use crate::types::string_id::StringId;
use crate::types::string_index::StringIndex;
use core::marker::PhantomData;
use vstd::prelude::*;
use vstd::string::StringSliceAdditionalSpecFns;

verus! {

/// Alias for [`StringTableBuilder`].
pub type StringPoolBuilder<O, I, const NULL_PADDED: bool> = StringTableBuilder<O, I, NULL_PADDED>;

/// Incremental builder for [`StringTable`].
///
/// Each call to [`Self::try_push`] appends string bytes to a single byte
/// buffer and appends one offset. With `NULL_PADDED` set, every string is
/// stored with a trailing zero byte.
pub struct StringTableBuilder<O: Offset, I: StringIndex, const NULL_PADDED: bool> {
    bytes: Vec<u8>,
    offsets: Vec<O>,
    _id: PhantomData<I>,
}

impl StringTableBuilder<u32, u32, false> {
    /// Creates an empty builder with 32-bit offsets and indices and no
    /// padding.
    #[inline]
    pub fn new() -> (builder: Self)
        ensures
            builder.wf(),
            builder@ == Seq::<Seq<char>>::empty(),
            builder.bytes_view() == Seq::<u8>::empty(),
            builder.offsets_view() == seq![0usize],
    {
        Self::new_in()
    }

    /// Creates a builder as [`Self::new`] does, with room reserved for
    /// `strings` strings and `bytes` bytes in all.
    #[inline]
    pub fn with_capacity(strings: usize, bytes: usize) -> (builder: Self)
        ensures
            builder.wf(),
            builder@ == Seq::<Seq<char>>::empty(),
            builder.bytes_view() == Seq::<u8>::empty(),
            builder.offsets_view() == seq![0usize],
    {
        Self::with_capacity_in(strings, bytes)
    }
}

impl Default for StringTableBuilder<u32, u32, false> {
    #[inline]
    fn default() -> (builder: Self)
        ensures
            builder.wf(),
            builder@ == Seq::<Seq<char>>::empty(),
    {
        Self::new()
    }
}

impl<O: Offset, I: StringIndex, const NULL_PADDED: bool> View for StringTableBuilder<
    O,
    I,
    NULL_PADDED,
> {
    type V = Seq<Seq<char>>;

    /// The strings pushed so far, in order.
    open spec fn view(&self) -> Seq<Seq<char>> {
        strings(self.bytes_view(), self.offsets_view(), NULL_PADDED)
    }
}

impl<O: Offset, I: StringIndex, const NULL_PADDED: bool> StringTableBuilder<O, I, NULL_PADDED> {
    /// The bytes stored so far.
    pub closed spec fn bytes_view(&self) -> Seq<u8> {
        self.bytes@
    }

    /// The offsets recorded so far, as byte positions.
    pub closed spec fn offsets_view(&self) -> Seq<usize> {
        positions(self.offsets@)
    }

    /// The builder's invariant: its buffers form a sound layout, they are
    /// exactly what pushing its strings in order onto empty buffers gives,
    /// and the counts reached so far fit the two integer types.
    pub open spec fn wf(&self) -> bool {
        &&& layout_ok(self.bytes_view(), self.offsets_view(), NULL_PADDED)
        &&& self.bytes_view() == packed_bytes(self@, NULL_PADDED)
        &&& self.offsets_view() == packed_offsets(self@, NULL_PADDED)
        &&& O::spec_try_from_usize(self.bytes_view().len() as usize) is Some
        &&& self@.len() > 0 ==> I::spec_try_from_usize((self@.len() - 1) as usize) is Some
    }

    /// Why pushing a string of `value_len` bytes onto a builder that holds
    /// `strings` strings in `bytes` bytes fails, if it does. The string
    /// count is tested first, then the byte length.
    pub open spec fn push_error(strings: usize, bytes: usize, value_len: usize) -> Option<Error> {
        let end = bytes + value_len + pad_len(NULL_PADDED);
        if I::spec_try_from_usize(strings) is None {
            Some(
                Error::TooManyStrings {
                    strings: if strings == usize::MAX {
                        strings
                    } else {
                        (strings + 1) as usize
                    },
                    id_type: I::spec_type_name(),
                },
            )
        } else if end > usize::MAX {
            Some(Error::TooManyBytesForOffsetType { bytes, offset_type: O::spec_type_name() })
        } else if O::spec_try_from_usize(end as usize) is None {
            Some(Error::TooManyBytesForOffsetType { bytes: end as usize, offset_type: O::spec_type_name() })
        } else {
            None
        }
    }

    /// Creates an empty builder for any offset type, index type and padding
    /// mode.
    pub fn new_in() -> (builder: Self)
        ensures
            builder.wf(),
            builder@ == Seq::<Seq<char>>::empty(),
            builder.bytes_view() == Seq::<u8>::empty(),
            builder.offsets_view() == seq![0usize],
    {
        Self::with_capacity_in(0, 0)
    }

    /// Creates a builder as [`Self::new_in`] does, and asks for room for
    /// `strings` strings and `bytes` bytes in all. The hints only size the
    /// first allocation: the builder grows past them as needed, and a hint
    /// too large to be met is passed over.
    pub fn with_capacity_in(strings: usize, bytes: usize) -> (builder: Self)
        ensures
            builder.wf(),
            builder@ == Seq::<Seq<char>>::empty(),
            builder.bytes_view() == Seq::<u8>::empty(),
            builder.offsets_view() == seq![0usize],
    {
        let mut offsets: Vec<O> = Vec::new();
        let mut buffer: Vec<u8> = Vec::new();
        // The hints are wishes: where the room cannot be had now, the
        // vectors grow as strings arrive.
        let _ = offsets.try_reserve(strings.saturating_add(1));
        let _ = buffer.try_reserve(bytes);
        offsets.push(zero_offset::<O>());
        let builder = Self { bytes: buffer, offsets, _id: PhantomData };
        proof {
            O::lemma_offset_conversions(0);
            assert(builder.offsets_view() =~= seq![0usize]);
            assert(builder@ =~= Seq::<Seq<char>>::empty());
        }
        builder
    }

    /// Number of strings currently pushed.
    #[inline]
    pub fn len(&self) -> (n: usize)
        ensures
            n == self@.len(),
    {
        self.offsets.len().saturating_sub(1)
    }

    /// Returns `true` when the builder has no strings.
    #[inline]
    pub fn is_empty(&self) -> (empty: bool)
        ensures
            empty == (self@.len() == 0),
    {
        self.len() == 0
    }

    /// Current total byte length of pushed string data, terminators
    /// included.
    #[inline]
    pub fn bytes_len(&self) -> (n: usize)
        ensures
            n == self.bytes_view().len(),
    {
        self.bytes.len()
    }

    /// Appends a string and returns its [`StringId`].
    ///
    /// Fails, as [`Self::push_error`] says, when the string count does not
    /// fit the index type or the byte length does not fit the offset type;
    /// the builder is then left exactly as it was.
    pub fn try_push(&mut self, value: &str) -> (r: Result<StringId<I>, Error>)
        requires
            old(self).wf(),
        ensures
            final(self).wf(),
            match r {
                Ok(id) => {
                    &&& Self::push_error(
                        old(self)@.len() as usize,
                        old(self).bytes_view().len() as usize,
                        value.spec_bytes().len() as usize,
                    ) is None
                    &&& I::spec_try_from_usize(old(self)@.len() as usize) == Some(id.raw())
                    &&& id.index() == old(self)@.len()
                    &&& final(self)@ == old(self)@.push(value@)
                    &&& final(self).bytes_view() == pushed_bytes(
                        old(self).bytes_view(),
                        value.spec_bytes(),
                        NULL_PADDED,
                    )
                    &&& final(self).offsets_view() == old(self).offsets_view().push(
                        final(self).bytes_view().len() as usize,
                    )
                },
                Err(e) => {
                    &&& Self::push_error(
                        old(self)@.len() as usize,
                        old(self).bytes_view().len() as usize,
                        value.spec_bytes().len() as usize,
                    ) == Some(e)
                    &&& *final(self) == *old(self)
                },
            },
    {
        proof {
            I::lemma_type_name();
            O::lemma_type_name();
        }
        let id = self.len();
        let id_value = match I::try_from_usize(id) {
            Some(v) => v,
            None => {
                return Err(
                    Error::TooManyStrings { strings: id.saturating_add(1), id_type: I::TYPE_NAME },
                );
            },
        };

        let value_bytes = value.as_bytes();
        let start = self.bytes.len();
        let unpadded_end = match start.checked_add(value_bytes.len()) {
            Some(e) => e,
            None => {
                return Err(
                    Error::TooManyBytesForOffsetType { bytes: start, offset_type: O::TYPE_NAME },
                );
            },
        };
        let end = if NULL_PADDED {
            match unpadded_end.checked_add(1) {
                Some(e) => e,
                None => {
                    return Err(
                        Error::TooManyBytesForOffsetType { bytes: start, offset_type: O::TYPE_NAME },
                    );
                },
            }
        } else {
            unpadded_end
        };

        let end_offset = match O::try_from_usize(end) {
            Some(o) => o,
            None => {
                return Err(
                    Error::TooManyBytesForOffsetType { bytes: end, offset_type: O::TYPE_NAME },
                );
            },
        };

        self.bytes.extend_from_slice(value_bytes);
        if NULL_PADDED {
            self.bytes.push(0);
        }
        self.offsets.push(end_offset);
        proof {
            I::lemma_index_conversions(id);
            O::lemma_offset_conversions(end);
            lemma_push(
                old(self).bytes_view(),
                old(self).offsets_view(),
                value@,
                NULL_PADDED,
                end,
            );
            assert(self.bytes_view() =~= pushed_bytes(
                old(self).bytes_view(),
                value.spec_bytes(),
                NULL_PADDED,
            ));
            assert(self.offsets_view() =~= old(self).offsets_view().push(end));
            assert(self@.drop_last() =~= old(self)@);
        }
        Ok(StringId::new(id_value))
    }

    /// Finalizes into an immutable [`StringTable`].
    ///
    /// This does not copy string bytes: the two vectors are converted into
    /// boxed slices. The table holds the strings pushed, under the handles
    /// that the pushes returned, and its offsets start at zero.
    #[inline]
    pub fn build(self) -> (table: StringTable<O, I, NULL_PADDED>)
        requires
            self.wf(),
        ensures
            table.wf(),
            table@ == self@,
            table.bytes_view() == self.bytes_view(),
            table.offsets_view() == self.offsets_view(),
            table.bytes_view() == packed_bytes(table@, NULL_PADDED),
            table.offsets_view() == packed_offsets(table@, NULL_PADDED),
            table.offsets_view()[0] == 0,
    {
        proof {
            lemma_packed_starts_at_zero(self@, NULL_PADDED);
        }
        StringTable::from_parts_unchecked(into_boxed(self.bytes), into_boxed(self.offsets))
    }
}

} // verus!
