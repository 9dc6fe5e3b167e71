//! Immutable string storage backed by one byte buffer and one offset table.
//!
//! The layout is:
//!
//! - `bytes`: all UTF-8 string bytes concatenated
//! - `offsets`: start offset for each string, plus one final sentinel
//! - strings are not NUL-terminated by default; boundaries come from offsets
//!
//! For `n` strings there are `n + 1` offsets, and string `i` is
//! `bytes[offsets[i]..offsets[i + 1]]`.

use crate::error::ValidationError;
use crate::layout::{
    count, entry_ok, entry_violation, layout_ok, lemma_entry_violation, lemma_offsets_monotonic,
    logical_end, positions, region, string_at, strings,
};
use crate::types::offset::{zero_offset, Offset};
use crate::types::string_id::StringId;
use crate::types::string_index::StringIndex;
use core::marker::PhantomData;
use core::ops::Range;
use vstd::prelude::*;
use vstd::slice::slice_subrange;
use vstd::string::StringSliceAdditionalSpecFns;
use vstd::utf8::*;

verus! {

/// Alias for [`StringTable`].
pub type StringPool<O, I, const NULL_PADDED: bool> = StringTable<O, I, NULL_PADDED>;

/// Alias for [`StringTableIter`].
pub type StringPoolIter<'a, O, const NULL_PADDED: bool> = StringTableIter<'a, O, NULL_PADDED>;

/// Immutable string storage.
///
/// All strings are stored in a single contiguous UTF-8 byte buffer. An
/// offset table maps each [`StringId`] to a byte range; it always holds one
/// extra value at the end, a sentinel equal to the buffer's length.
///
/// `O` is the byte-offset type and bounds the total number of bytes; `I` is
/// the index type of the handles and bounds the number of strings. With
/// `NULL_PADDED` set, every string is stored with a trailing zero byte that
/// lookups leave out.
pub struct StringTable<O: Offset, I: StringIndex, const NULL_PADDED: bool> {
    bytes: Box<[u8]>,
    offsets: Box<[O]>,
    _id: PhantomData<I>,
}

impl StringTable<u32, u16, false> {
    /// Creates an empty table with 32-bit offsets, 16-bit indices and no
    /// padding.
    #[inline]
    pub fn empty() -> (table: Self)
        ensures
            table.wf(),
            table@ == Seq::<Seq<char>>::empty(),
            table.bytes_view() == Seq::<u8>::empty(),
            table.offsets_view() == seq![0usize],
    {
        Self::empty_in()
    }
}

impl<O: Offset, I: StringIndex, const NULL_PADDED: bool> View for StringTable<O, I, NULL_PADDED> {
    type V = Seq<Seq<char>>;

    /// The strings of the table, in order.
    open spec fn view(&self) -> Seq<Seq<char>> {
        strings(self.bytes_view(), self.offsets_view(), NULL_PADDED)
    }
}

impl<O: Offset, I: StringIndex, const NULL_PADDED: bool> StringTable<O, I, NULL_PADDED> {
    /// The byte buffer.
    pub closed spec fn bytes_view(&self) -> Seq<u8> {
        self.bytes@
    }

    /// The offset table as stored, sentinel included.
    pub closed spec fn raw_offsets(&self) -> Seq<O> {
        self.offsets@
    }

    /// The offset table as byte positions, sentinel included.
    pub open spec fn offsets_view(&self) -> Seq<usize> {
        positions(self.raw_offsets())
    }

    /// Whether the table is safe to query: its buffers form a sound layout,
    /// and its byte length and string count fit the two integer types.
    pub open spec fn wf(&self) -> bool {
        &&& layout_ok(self.bytes_view(), self.offsets_view(), NULL_PADDED)
        &&& O::spec_try_from_usize(self.bytes_view().len() as usize) is Some
        &&& self@.len() > 0 ==> I::spec_try_from_usize((self@.len() - 1) as usize) is Some
    }

    /// Creates an empty table for any offset type, index type and padding
    /// mode.
    pub fn empty_in() -> (table: Self)
        ensures
            table.wf(),
            table@ == Seq::<Seq<char>>::empty(),
            table.bytes_view() == Seq::<u8>::empty(),
            table.offsets_view() == seq![0usize],
    {
        let bytes: Vec<u8> = Vec::new();
        let mut offsets: Vec<O> = Vec::with_capacity(1);
        offsets.push(zero_offset::<O>());
        let table = Self::from_parts_unchecked(into_boxed(bytes), into_boxed(offsets));
        proof {
            O::lemma_offset_conversions(0);
            assert(table.offsets_view() =~= seq![0usize]);
            assert(table@ =~= Seq::<Seq<char>>::empty());
        }
        table
    }

    /// Forms a table from a byte buffer and an offset table that were built
    /// elsewhere, without looking at them. Nothing is promised of the result
    /// but that it holds the two: [`Self::validate`] tells whether it is
    /// safe to query.
    #[inline]
    pub fn from_parts_unchecked(bytes: Box<[u8]>, offsets: Box<[O]>) -> (table: Self)
        ensures
            table.bytes_view() == bytes@,
            table.raw_offsets() == offsets@,
    {
        Self { bytes, offsets, _id: PhantomData }
    }

    /// Number of strings in the table.
    #[inline]
    pub fn len(&self) -> (n: usize)
        ensures
            n == self@.len(),
    {
        self.offsets.len().saturating_sub(1)
    }

    /// Returns `true` when the table has no strings.
    #[inline]
    pub fn is_empty(&self) -> (empty: bool)
        ensures
            empty == (self@.len() == 0),
    {
        self.len() == 0
    }

    /// Returns the contiguous byte storage.
    #[inline]
    pub fn as_bytes(&self) -> (bytes: &[u8])
        ensures
            bytes@ == self.bytes_view(),
    {
        &self.bytes
    }

    /// Returns the offset table, including the final sentinel.
    #[inline]
    pub fn offsets(&self) -> (offsets: &[O])
        ensures
            offsets@ == self.raw_offsets(),
    {
        &self.offsets
    }

    /// Returns the string for a given ID, or `None` when the ID is not one
    /// of this table.
    #[inline]
    pub fn get(&self, id: StringId<I>) -> (r: Option<&str>)
        requires
            self.wf(),
        ensures
            id.index() < self@.len() ==> r is Some && r->0@ == self@[id.index() as int],
            id.index() >= self@.len() ==> r is None,
    {
        let index = id.into_usize();
        if index < self.len() {
            Some(decode_entry::<O, NULL_PADDED>(&self.bytes, &self.offsets, index))
        } else {
            None
        }
    }

    /// Returns the string for a given ID without the bounds check of
    /// [`Self::get`]: the ID must be one of this table.
    #[inline]
    pub fn get_unchecked(&self, id: StringId<I>) -> (r: &str)
        requires
            self.wf(),
            id.index() < self@.len(),
        ensures
            r@ == self@[id.index() as int],
    {
        decode_entry::<O, NULL_PADDED>(&self.bytes, &self.offsets, id.into_usize())
    }

    /// Returns an iterator over all strings, in the order of their IDs.
    #[inline]
    pub fn iter(&self) -> (it: StringTableIter<'_, O, NULL_PADDED>)
        requires
            self.wf(),
        ensures
            it.remaining() == self@,
    {
        let it = StringTableIter { bytes: &self.bytes, offsets: &self.offsets, cur: 0 };
        proof {
            assert(it.remaining() =~= self@);
        }
        it
    }

    /// Returns `true` if any stored string equals `value`. This is a linear
    /// scan over all strings.
    #[inline]
    pub fn contains(&self, value: &str) -> (found: bool)
        requires
            self.wf(),
        ensures
            found == self@.contains(value@),
    {
        let needle = value.as_bytes();
        let mut it = self.iter();
        let ghost mut seen: int = 0;
        loop
            invariant
                0 <= seen <= self@.len(),
                it.remaining() == self@.subrange(seen, self@.len() as int),
                forall|j: int| 0 <= j < seen ==> self@[j] != value@,
                needle@ == value.spec_bytes(),
            decreases it.remaining().len(),
        {
            match it.next() {
                Some(item) => {
                    if bytes_equal(item.as_bytes(), needle) {
                        proof {
                            encode_utf8_decode_utf8(item@);
                            encode_utf8_decode_utf8(value@);
                            assert(self@[seen] == value@);
                        }
                        return true;
                    }
                    proof {
                        assert(self@.subrange(seen, self@.len() as int).drop_first()
                            =~= self@.subrange(seen + 1, self@.len() as int));
                        seen = seen + 1;
                    }
                },
                None => {
                    return false;
                },
            }
        }
    }

    /// Returns the byte range of the string for a given ID, without its
    /// terminator, or `None` when the ID is not one of this table.
    #[inline]
    pub fn byte_range(&self, id: StringId<I>) -> (r: Option<Range<usize>>)
        ensures
            id.index() < self@.len() ==> r is Some && r->0.start == self.offsets_view()[id.index() as int]
                && r->0.end == logical_end(self.offsets_view(), id.index() as int, NULL_PADDED),
            id.index() >= self@.len() ==> r is None,
    {
        let index = id.into_usize();
        if index < self.len() {
            let start = self.offsets[index].to_usize();
            let end = self.offsets[index + 1].to_usize();
            let logical_end = if NULL_PADDED {
                end.saturating_sub(1)
            } else {
                end
            };
            Some(start..logical_end)
        } else {
            None
        }
    }

    /// What is wrong with the table as a whole, if anything: a byte length
    /// or a string count that does not fit its integer type, a missing
    /// sentinel, or a sentinel that differs from the byte length. The checks
    /// are made in this order, and the first that fails is reported.
    pub open spec fn header_violation(&self) -> Option<ValidationError> {
        let bytes_len = self.bytes_view().len() as usize;
        let strings = self@.len() as usize;
        if O::spec_try_from_usize(bytes_len) is None {
            Some(
                ValidationError::TooManyBytesForOffsetType {
                    bytes: bytes_len,
                    offset_type: O::spec_type_name(),
                },
            )
        } else if strings > 0 && I::spec_try_from_usize((strings - 1) as usize) is None {
            Some(ValidationError::TooManyStrings { strings, id_type: I::spec_type_name() })
        } else if self.offsets_view().len() == 0 {
            Some(ValidationError::MissingSentinelOffset)
        } else if self.offsets_view().last() != bytes_len {
            Some(
                ValidationError::LastOffsetMismatch {
                    found: self.offsets_view().last(),
                    expected: bytes_len,
                },
            )
        } else {
            None
        }
    }

    /// Whether `e` is the first thing wrong with the table: what is wrong
    /// with it as a whole or, where nothing is, what is wrong with the
    /// first offset that fails its checks.
    pub open spec fn is_first_violation(&self, e: ValidationError) -> bool {
        ||| self.header_violation() == Some(e)
        ||| {
            &&& self.header_violation() is None
            &&& exists|k: int|
                {
                    &&& 0 <= k < self.offsets_view().len()
                    &&& #[trigger] entry_violation(
                        self.bytes_view(),
                        self.offsets_view(),
                        k,
                        NULL_PADDED,
                    ) == Some(e)
                    &&& forall|j: int|
                        0 <= j < k ==> (#[trigger] entry_violation(
                            self.bytes_view(),
                            self.offsets_view(),
                            j,
                            NULL_PADDED,
                        )) is None
                }
        }
    }

    /// Walks the table and confirms that it is safe to query, or returns the
    /// first violation found.
    pub fn validate(&self) -> (r: Result<(), ValidationError>)
        ensures
            r is Ok <==> self.wf(),
            r is Err ==> self.is_first_violation(r->Err_0),
    {
        proof {
            I::lemma_type_name();
            O::lemma_type_name();
        }
        let bytes_len = self.bytes.len();
        if O::try_from_usize(bytes_len).is_none() {
            return Err(
                ValidationError::TooManyBytesForOffsetType {
                    bytes: bytes_len,
                    offset_type: O::TYPE_NAME,
                },
            );
        }
        let strings = self.len();
        if strings > 0 && I::try_from_usize(strings - 1).is_none() {
            return Err(ValidationError::TooManyStrings { strings, id_type: I::TYPE_NAME });
        }
        if self.offsets.len() == 0 {
            return Err(ValidationError::MissingSentinelOffset);
        }
        let last_index = self.offsets.len() - 1;
        let found_last = self.offsets[last_index].to_usize();
        if found_last != bytes_len {
            return Err(
                ValidationError::LastOffsetMismatch { found: found_last, expected: bytes_len },
            );
        }
        let ghost bytes = self.bytes_view();
        let ghost offsets = self.offsets_view();
        let mut previous = 0usize;
        let mut index: usize = 0;
        while index < self.offsets.len()
            invariant
                bytes == self.bytes_view(),
                offsets == self.offsets_view(),
                bytes_len == bytes.len(),
                self.header_violation() is None,
                0 <= index <= offsets.len(),
                index > 0 ==> previous == offsets[index - 1],
                forall|j: int|
                    0 <= j < index ==> (#[trigger] entry_violation(bytes, offsets, j, NULL_PADDED))
                        is None,
            decreases offsets.len() - index,
        {
            let current = self.offsets[index].to_usize();
            if current > bytes_len {
                let e = ValidationError::OffsetOutOfBounds { index, offset: current, bytes_len };
                proof {
                    self.lemma_rejected(index as int, e);
                }
                return Err(e);
            }
            if index > 0 {
                if current < previous {
                    let e = ValidationError::OffsetsNotMonotonic { index, previous, current };
                    proof {
                        self.lemma_rejected(index as int, e);
                    }
                    return Err(e);
                }
                let content_end = if NULL_PADDED {
                    if current == previous {
                        let e = ValidationError::NullPaddedStringMissingTerminatorByte {
                            index: index - 1,
                        };
                        proof {
                            self.lemma_rejected(index as int, e);
                        }
                        return Err(e);
                    }
                    let terminator_index = current - 1;
                    if self.bytes[terminator_index] != 0 {
                        let e = ValidationError::NullPaddedStringMissingTrailingNul {
                            index: index - 1,
                        };
                        proof {
                            self.lemma_rejected(index as int, e);
                        }
                        return Err(e);
                    }
                    terminator_index
                } else {
                    current
                };
                if str_from_utf8(slice_subrange(&self.bytes, previous, content_end)).is_none() {
                    let e = ValidationError::InvalidUtf8 { index: index - 1 };
                    proof {
                        self.lemma_rejected(index as int, e);
                    }
                    return Err(e);
                }
            }
            previous = current;
            index += 1;
        }
        proof {
            assert forall|i: int| 0 <= i < count(offsets) implies #[trigger] entry_ok(
                bytes,
                offsets,
                i,
                NULL_PADDED,
            ) by {
                assert(entry_violation(bytes, offsets, i + 1, NULL_PADDED) is None);
                lemma_entry_violation(bytes, offsets, i + 1, NULL_PADDED);
            }
        }
        Ok(())
    }

    /// A violation at offset `index`, with none at the offsets before it and
    /// none in the table as a whole, is the first violation, and the table
    /// is not safe to query.
    proof fn lemma_rejected(&self, index: int, e: ValidationError)
        requires
            self.header_violation() is None,
            0 <= index < self.offsets_view().len(),
            entry_violation(self.bytes_view(), self.offsets_view(), index, NULL_PADDED) == Some(e),
            forall|j: int|
                0 <= j < index ==> (#[trigger] entry_violation(
                    self.bytes_view(),
                    self.offsets_view(),
                    j,
                    NULL_PADDED,
                )) is None,
        ensures
            self.is_first_violation(e),
            !self.wf(),
    {
        if self.wf() {
            lemma_offsets_monotonic(
                self.bytes_view(),
                self.offsets_view(),
                NULL_PADDED,
                index,
                index,
            );
            if index > 0 {
                assert(entry_ok(self.bytes_view(), self.offsets_view(), index - 1, NULL_PADDED));
                lemma_entry_violation(self.bytes_view(), self.offsets_view(), index, NULL_PADDED);
            }
        }
    }

    /// In a table that is safe to query there is one offset more than there
    /// are strings, the last offset is the buffer's length, and no offset is
    /// smaller than an earlier one.
    pub proof fn lemma_offsets(&self, i: int, j: int)
        requires
            self.wf(),
            0 <= i <= j <= self@.len(),
        ensures
            self.offsets_view().len() == self@.len() + 1,
            self.offsets_view().last() == self.bytes_view().len(),
            self.offsets_view()[i] <= self.offsets_view()[j] <= self.bytes_view().len(),
    {
        lemma_offsets_monotonic(self.bytes_view(), self.offsets_view(), NULL_PADDED, i, j);
    }

    /// In a table that is safe to query the bytes in the range that
    /// [`Self::byte_range`] gives for a string are the UTF-8 encoding of the
    /// string that [`Self::get`] gives for it.
    pub proof fn lemma_byte_range(&self, i: int)
        requires
            self.wf(),
            0 <= i < self@.len(),
        ensures
            self.offsets_view()[i] <= logical_end(self.offsets_view(), i, NULL_PADDED)
                <= self.bytes_view().len(),
            self.bytes_view().subrange(
                self.offsets_view()[i] as int,
                logical_end(self.offsets_view(), i, NULL_PADDED),
            ) == encode_utf8(self@[i]),
    {
        assert(entry_ok(self.bytes_view(), self.offsets_view(), i, NULL_PADDED));
        decode_utf8_encode_utf8(region(self.bytes_view(), self.offsets_view(), i, NULL_PADDED));
    }

    /// In a padded table that is safe to query the region of every string
    /// ends with a zero byte, and the string is what the region holds
    /// before that byte.
    pub proof fn lemma_padding(&self, i: int)
        requires
            self.wf(),
            NULL_PADDED,
            0 <= i < self@.len(),
        ensures
            self.offsets_view()[i] < self.offsets_view()[i + 1] <= self.bytes_view().len(),
            self.bytes_view()[self.offsets_view()[i + 1] - 1] == 0,
            self@[i] == decode_utf8(
                self.bytes_view().subrange(
                    self.offsets_view()[i] as int,
                    self.offsets_view()[i + 1] - 1,
                ),
            ),
    {
        assert(entry_ok(self.bytes_view(), self.offsets_view(), i, NULL_PADDED));
    }
}

/// Iterator returned by [`StringTable::iter`]: the strings of a table that
/// are still to come, in order.
pub struct StringTableIter<'a, O: Offset, const NULL_PADDED: bool> {
    bytes: &'a [u8],
    offsets: &'a [O],
    cur: usize,
}

impl<'a, O: Offset, const NULL_PADDED: bool> StringTableIter<'a, O, NULL_PADDED> {
    #[verifier::type_invariant]
    spec fn inv(self) -> bool {
        &&& layout_ok(self.bytes@, positions(self.offsets@), NULL_PADDED)
        &&& self.cur <= count(positions(self.offsets@))
    }

    /// The strings that the iterator has yet to yield, in order.
    pub closed spec fn remaining(&self) -> Seq<Seq<char>> {
        strings(self.bytes@, positions(self.offsets@), NULL_PADDED).subrange(
            self.cur as int,
            count(positions(self.offsets@)) as int,
        )
    }

    /// Yields the next string, or `None` when all have been yielded.
    #[inline]
    pub fn next(&mut self) -> (r: Option<&'a str>)
        ensures
            old(self).remaining().len() > 0 ==> r is Some && r->0@ == old(self).remaining()[0]
                && final(self).remaining() == old(self).remaining().drop_first(),
            old(self).remaining().len() == 0 ==> r is None && final(self).remaining() == old(
                self,
            ).remaining(),
    {
        proof {
            use_type_invariant(&*self);
        }
        if self.cur < self.offsets.len().saturating_sub(1) {
            let item = decode_entry::<O, NULL_PADDED>(self.bytes, self.offsets, self.cur);
            self.cur = self.cur + 1;
            proof {
                assert(self.remaining() =~= old(self).remaining().drop_first());
            }
            Some(item)
        } else {
            None
        }
    }

    /// Number of strings that the iterator has yet to yield.
    #[inline]
    pub fn len(&self) -> (n: usize)
        ensures
            n == self.remaining().len(),
    {
        proof {
            use_type_invariant(self);
        }
        self.offsets.len().saturating_sub(1) - self.cur
    }

    /// The bounds on the number of strings to come: both are [`Self::len`].
    #[inline]
    pub fn size_hint(&self) -> (hint: (usize, Option<usize>))
        ensures
            hint.0 == self.remaining().len(),
            hint.1 == Some(hint.0),
    {
        let remaining = self.len();
        (remaining, Some(remaining))
    }
}

/// Reads string `index` of a sound layout.
#[inline]
fn decode_entry<'a, O: Offset, const NULL_PADDED: bool>(
    bytes: &'a [u8],
    offsets: &'a [O],
    index: usize,
) -> (s: &'a str)
    requires
        layout_ok(bytes@, positions(offsets@), NULL_PADDED),
        index < count(positions(offsets@)),
    ensures
        s@ == string_at(bytes@, positions(offsets@), index as int, NULL_PADDED),
        s.spec_bytes() == region(bytes@, positions(offsets@), index as int, NULL_PADDED),
{
    broadcast use encode_utf8_decode_utf8;

    let start = offsets[index].to_usize();
    let end = offsets[index + 1].to_usize();
    let logical_end = if NULL_PADDED {
        end.saturating_sub(1)
    } else {
        end
    };
    assert(entry_ok(bytes@, positions(offsets@), index as int, NULL_PADDED));
    match str_from_utf8(slice_subrange(bytes, start, logical_end)) {
        Some(s) => s,
        None => vstd::pervasive::unreached(),
    }
}

/// Whether two byte slices hold the same bytes.
fn bytes_equal(a: &[u8], b: &[u8]) -> (equal: bool)
    ensures
        equal == (a@ == b@),
{
    if a.len() != b.len() {
        return false;
    }
    let mut i: usize = 0;
    while i < a.len()
        invariant
            a@.len() == b@.len(),
            0 <= i <= a@.len(),
            forall|j: int| 0 <= j < i ==> a@[j] == b@[j],
        decreases a@.len() - i,
    {
        if a[i] != b[i] {
            return false;
        }
        i += 1;
    }
    assert(a@ =~= b@);
    true
}

/// `Vec::into_boxed_slice` of std: the box holds the vector's items, in
/// their order. Only the shape of the container changes.
#[verifier::external_body]
pub(crate) fn into_boxed<T>(items: Vec<T>) -> (boxed: Box<[T]>)
    ensures
        boxed@ == items@,
{
    items.into_boxed_slice()
}

/// `core::str::from_utf8`: the bytes as a string slice where they are valid
/// UTF-8, and `None` where they are not. The string's bytes are the
/// slice's.
#[verifier::external_body]
fn str_from_utf8(bytes: &[u8]) -> (r: Option<&str>)
    ensures
        r is Some <==> valid_utf8(bytes@),
        r is Some ==> r->0.spec_bytes() == bytes@,
{
    match core::str::from_utf8(bytes) {
        Ok(s) => Some(s),
        Err(_) => None,
    }
}

} // verus!
