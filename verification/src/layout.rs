//! The byte layout of a table, as mathematics.
//!
//! A table is one byte buffer and one sequence of offsets into it. For `n`
//! strings there are `n + 1` offsets; string `i` occupies the bytes from
//! offset `i` up to offset `i + 1`. In padded mode the last byte of each
//! region is a zero terminator that is not part of the string.

use crate::error::ValidationError;
use crate::types::offset::Offset;
use vstd::prelude::*;
use vstd::utf8::*;

verus! {

/// The byte positions that a sequence of stored offsets stands for.
pub open spec fn positions<O: Offset>(offsets: Seq<O>) -> Seq<usize> {
    Seq::new(offsets.len(), |i: int| offsets[i].spec_to_usize())
}

/// Number of strings that an offset sequence describes.
pub open spec fn count(offsets: Seq<usize>) -> nat {
    if offsets.len() == 0 {
        0
    } else {
        (offsets.len() - 1) as nat
    }
}

/// Number of terminator bytes stored after each string.
pub open spec fn pad_len(padded: bool) -> nat {
    if padded {
        1
    } else {
        0
    }
}

/// Where the content of string `i` ends: its region's end, less the
/// terminator in padded mode.
pub open spec fn logical_end(offsets: Seq<usize>, i: int, padded: bool) -> int {
    if padded && offsets[i + 1] > 0 {
        offsets[i + 1] - 1
    } else {
        offsets[i + 1] as int
    }
}

/// The bytes of string `i`, without its terminator.
pub open spec fn region(bytes: Seq<u8>, offsets: Seq<usize>, i: int, padded: bool) -> Seq<u8> {
    bytes.subrange(offsets[i] as int, logical_end(offsets, i, padded))
}

/// String `i`, decoded.
pub open spec fn string_at(bytes: Seq<u8>, offsets: Seq<usize>, i: int, padded: bool) -> Seq<
    char,
> {
    decode_utf8(region(bytes, offsets, i, padded))
}

/// All strings of a layout, in order.
pub open spec fn strings(bytes: Seq<u8>, offsets: Seq<usize>, padded: bool) -> Seq<Seq<char>> {
    Seq::new(count(offsets), |i: int| string_at(bytes, offsets, i, padded))
}

/// Whether string `i` is stored soundly: its region lies in the buffer, ends
/// no earlier than it starts, holds valid UTF-8 and, in padded mode, ends
/// with a zero byte that belongs to it.
pub open spec fn entry_ok(bytes: Seq<u8>, offsets: Seq<usize>, i: int, padded: bool) -> bool {
    &&& offsets[i] <= offsets[i + 1] <= bytes.len()
    &&& padded ==> offsets[i] < offsets[i + 1] && bytes[offsets[i + 1] - 1] == 0
    &&& valid_utf8(region(bytes, offsets, i, padded))
}

/// Whether a buffer and an offset sequence form a table that is safe to
/// query: there is a sentinel, it equals the buffer's length, and every
/// string is stored soundly.
pub open spec fn layout_ok(bytes: Seq<u8>, offsets: Seq<usize>, padded: bool) -> bool {
    &&& offsets.len() >= 1
    &&& offsets.last() == bytes.len()
    &&& forall|i: int| 0 <= i < count(offsets) ==> #[trigger] entry_ok(bytes, offsets, i, padded)
}

/// What is wrong with offset `k`, if anything, given that the offsets before
/// it are sound. The offset must lie in the buffer; from the second offset on
/// it must not be smaller than the one before it, and the two must enclose a
/// soundly stored string. The checks are made in this order, and the first
/// that fails is reported.
pub open spec fn entry_violation(
    bytes: Seq<u8>,
    offsets: Seq<usize>,
    k: int,
    padded: bool,
) -> Option<ValidationError> {
    let current = offsets[k];
    if current > bytes.len() {
        Some(
            ValidationError::OffsetOutOfBounds {
                index: k as usize,
                offset: current,
                bytes_len: bytes.len() as usize,
            },
        )
    } else if k == 0 {
        None
    } else {
        let previous = offsets[k - 1];
        let string = (k - 1) as usize;
        if current < previous {
            Some(ValidationError::OffsetsNotMonotonic { index: k as usize, previous, current })
        } else if padded && current == previous {
            Some(ValidationError::NullPaddedStringMissingTerminatorByte { index: string })
        } else if padded && bytes[current - 1] != 0 {
            Some(ValidationError::NullPaddedStringMissingTrailingNul { index: string })
        } else if !valid_utf8(bytes.subrange(previous as int, current - pad_len(padded))) {
            Some(ValidationError::InvalidUtf8 { index: string })
        } else {
            None
        }
    }
}

/// An offset after the first passes its checks exactly when the string
/// before it is stored soundly.
pub proof fn lemma_entry_violation(bytes: Seq<u8>, offsets: Seq<usize>, k: int, padded: bool)
    requires
        1 <= k < offsets.len(),
    ensures
        entry_violation(bytes, offsets, k, padded) is None <==> entry_ok(
            bytes,
            offsets,
            k - 1,
            padded,
        ),
{
    if offsets[k - 1] <= offsets[k] <= bytes.len() && (padded ==> offsets[k - 1] < offsets[k]) {
        assert(region(bytes, offsets, k - 1, padded) == bytes.subrange(
            offsets[k - 1] as int,
            offsets[k] - pad_len(padded),
        ));
    }
}

/// The buffer after one more string, given as its encoded bytes, is stored.
pub open spec fn pushed_bytes(bytes: Seq<u8>, value: Seq<u8>, padded: bool) -> Seq<u8> {
    if padded {
        bytes + value + seq![0u8]
    } else {
        bytes + value
    }
}

/// The buffer that holds `values`, pushed in order onto an empty one.
pub open spec fn packed_bytes(values: Seq<Seq<char>>, padded: bool) -> Seq<u8>
    decreases values.len(),
{
    if values.len() == 0 {
        Seq::empty()
    } else {
        pushed_bytes(packed_bytes(values.drop_last(), padded), encode_utf8(values.last()), padded)
    }
}

/// The offsets recorded while `values` are pushed in order: zero, then the
/// buffer's length after each push.
pub open spec fn packed_offsets(values: Seq<Seq<char>>, padded: bool) -> Seq<usize>
    decreases values.len(),
{
    if values.len() == 0 {
        seq![0usize]
    } else {
        packed_offsets(values.drop_last(), padded).push(packed_bytes(values, padded).len() as usize)
    }
}

/// In a sound layout no offset points past the buffer and no offset is
/// smaller than an earlier one.
pub proof fn lemma_offsets_monotonic(
    bytes: Seq<u8>,
    offsets: Seq<usize>,
    padded: bool,
    i: int,
    j: int,
)
    requires
        layout_ok(bytes, offsets, padded),
        0 <= i <= j < offsets.len(),
    ensures
        offsets[i] <= offsets[j] <= bytes.len(),
    decreases j - i,
{
    if i < j {
        assert(entry_ok(bytes, offsets, j - 1, padded));
        lemma_offsets_monotonic(bytes, offsets, padded, i, j - 1);
    } else if j + 1 < offsets.len() {
        assert(entry_ok(bytes, offsets, j, padded));
    }
}

/// Storing one more string keeps a layout sound, leaves every earlier string
/// as it was, and makes the new string the last one.
pub proof fn lemma_push(
    bytes: Seq<u8>,
    offsets: Seq<usize>,
    value: Seq<char>,
    padded: bool,
    end: usize,
)
    requires
        layout_ok(bytes, offsets, padded),
        end == bytes.len() + encode_utf8(value).len() + pad_len(padded),
    ensures
        layout_ok(pushed_bytes(bytes, encode_utf8(value), padded), offsets.push(end), padded),
        strings(pushed_bytes(bytes, encode_utf8(value), padded), offsets.push(end), padded)
            == strings(bytes, offsets, padded).push(value),
{
    broadcast use {encode_utf8_valid_utf8, encode_utf8_decode_utf8};

    let enc = encode_utf8(value);
    let bytes2 = pushed_bytes(bytes, enc, padded);
    let offsets2 = offsets.push(end);
    let n = count(offsets) as int;
    assert(bytes2.len() == end);
    assert forall|i: int| 0 <= i < n implies region(bytes2, offsets2, i, padded) == region(
        bytes,
        offsets,
        i,
        padded,
    ) by {
        assert(entry_ok(bytes, offsets, i, padded));
        assert(region(bytes2, offsets2, i, padded) =~= region(bytes, offsets, i, padded));
    }
    assert(region(bytes2, offsets2, n, padded) =~= enc);
    assert forall|i: int| 0 <= i < count(offsets2) implies #[trigger] entry_ok(
        bytes2,
        offsets2,
        i,
        padded,
    ) by {
        if i < n {
            assert(entry_ok(bytes, offsets, i, padded));
            assert(region(bytes2, offsets2, i, padded) == region(bytes, offsets, i, padded));
        }
    }
    assert(strings(bytes2, offsets2, padded) =~= strings(bytes, offsets, padded).push(value));
}

/// The offsets recorded while strings are pushed start at zero, and there is
/// one more of them than there are strings.
pub proof fn lemma_packed_starts_at_zero(values: Seq<Seq<char>>, padded: bool)
    ensures
        packed_offsets(values, padded).len() == values.len() + 1,
        packed_offsets(values, padded)[0] == 0,
    decreases values.len(),
{
    if values.len() > 0 {
        lemma_packed_starts_at_zero(values.drop_last(), padded);
    }
}

/// Round trip: strings pushed in order onto empty buffers form a sound
/// layout, and reading that layout gives the same strings back, each at the
/// position at which it was pushed. The buffer must not outgrow what a
/// `usize` can count.
pub proof fn lemma_round_trip(values: Seq<Seq<char>>, padded: bool)
    requires
        packed_bytes(values, padded).len() <= usize::MAX,
    ensures
        layout_ok(packed_bytes(values, padded), packed_offsets(values, padded), padded),
        strings(packed_bytes(values, padded), packed_offsets(values, padded), padded) == values,
    decreases values.len(),
{
    let bytes = packed_bytes(values, padded);
    let offsets = packed_offsets(values, padded);
    if values.len() == 0 {
        assert(strings(bytes, offsets, padded) =~= values);
    } else {
        let before = values.drop_last();
        lemma_round_trip(before, padded);
        lemma_push(
            packed_bytes(before, padded),
            packed_offsets(before, padded),
            values.last(),
            padded,
            bytes.len() as usize,
        );
        assert(before.push(values.last()) =~= values);
    }
}

} // verus!
