use super::string_index::StringIndex;
use vstd::prelude::*;

verus! {

/// Identifier for one string in a table.
///
/// `I` is the backing integer type. The value is table-local: it is the
/// position of the string among the table's strings.
#[derive(Clone, Copy, Debug, Default, PartialEq, Eq, PartialOrd, Ord, Hash)]
pub struct StringId<I = u32>(I);

impl<I> StringId<I> {
    /// The raw value that this handle wraps.
    pub closed spec fn raw(self) -> I {
        self.0
    }

    /// The handle that wraps `raw`.
    pub closed spec fn spec_new(raw: I) -> Self {
        StringId(raw)
    }

    /// A handle wraps the value it was made from.
    pub broadcast proof fn lemma_spec_new(raw: I)
        ensures
            (#[trigger] Self::spec_new(raw)).raw() == raw,
    {
    }

    /// Creates a new ID from a raw value.
    #[inline]
    pub fn new(raw: I) -> (id: Self)
        ensures
            id == Self::spec_new(raw),
            id.raw() == raw,
    {
        Self(raw)
    }

    /// Returns the raw index value.
    #[inline]
    pub fn into_raw(self) -> (raw: I)
        ensures
            raw == self.raw(),
    {
        self.0
    }
}

impl<I: StringIndex> StringId<I> {
    /// The position that this handle selects.
    pub open spec fn index(self) -> usize {
        self.raw().spec_to_usize()
    }

    /// Returns the value as [`usize`].
    #[inline]
    pub fn into_usize(self) -> (index: usize)
        ensures
            index == self.index(),
    {
        self.0.to_usize()
    }
}

impl StringId<u32> {
    /// Returns the raw [`u32`] value.
    #[inline]
    pub fn into_u32(self) -> (raw: u32)
        ensures
            raw == self.raw(),
    {
        self.0
    }
}

impl<I> From<I> for StringId<I> {
    #[inline]
    fn from(value: I) -> (id: Self) {
        Self(value)
    }
}

impl<I> vstd::std_specs::convert::FromSpecImpl<I> for StringId<I> {
    open spec fn obeys_from_spec() -> bool {
        true
    }

    open spec fn from_spec(value: I) -> Self {
        Self::spec_new(value)
    }
}

impl From<StringId<u8>> for u8 {
    #[inline]
    fn from(value: StringId<u8>) -> (raw: Self) {
        value.0
    }
}

impl vstd::std_specs::convert::FromSpecImpl<StringId<u8>> for u8 {
    open spec fn obeys_from_spec() -> bool {
        true
    }

    open spec fn from_spec(value: StringId<u8>) -> Self {
        value.raw()
    }
}

impl From<StringId<u16>> for u16 {
    #[inline]
    fn from(value: StringId<u16>) -> (raw: Self) {
        value.0
    }
}

impl vstd::std_specs::convert::FromSpecImpl<StringId<u16>> for u16 {
    open spec fn obeys_from_spec() -> bool {
        true
    }

    open spec fn from_spec(value: StringId<u16>) -> Self {
        value.raw()
    }
}

impl From<StringId<u32>> for u32 {
    #[inline]
    fn from(value: StringId<u32>) -> (raw: Self) {
        value.0
    }
}

impl vstd::std_specs::convert::FromSpecImpl<StringId<u32>> for u32 {
    open spec fn obeys_from_spec() -> bool {
        true
    }

    open spec fn from_spec(value: StringId<u32>) -> Self {
        value.raw()
    }
}

impl From<StringId<u64>> for u64 {
    #[inline]
    fn from(value: StringId<u64>) -> (raw: Self) {
        value.0
    }
}

impl vstd::std_specs::convert::FromSpecImpl<StringId<u64>> for u64 {
    open spec fn obeys_from_spec() -> bool {
        true
    }

    open spec fn from_spec(value: StringId<u64>) -> Self {
        value.raw()
    }
}

impl From<StringId<usize>> for usize {
    #[inline]
    fn from(value: StringId<usize>) -> (raw: Self) {
        value.0
    }
}

impl vstd::std_specs::convert::FromSpecImpl<StringId<usize>> for usize {
    open spec fn obeys_from_spec() -> bool {
        true
    }

    open spec fn from_spec(value: StringId<usize>) -> Self {
        value.raw()
    }
}

} // verus!
