use super::sealed::Sealed;
use vstd::prelude::*;

verus! {

/// Contract for integer types used as string indices.
///
/// An index type bounds the number of strings a table can hold: the position
/// of a string is handed out only where [`Self::try_from_usize`] accepts it,
/// and is read back with [`Self::to_usize`].
///
/// The contract is closed: it holds of `u8`, `u16`, `u32`, `u64` and `usize`,
/// and no other type can implement it.
pub trait StringIndex: Copy + Send + Sync + Sealed + 'static {
    /// Human-readable type name.
    const TYPE_NAME: &'static str;

    /// What [`Self::TYPE_NAME`] is.
    spec fn spec_type_name() -> &'static str;

    /// The string position that this value stands for.
    spec fn spec_to_usize(self) -> usize;

    /// The value that stands for `value`, where the type can hold it.
    spec fn spec_try_from_usize(value: usize) -> Option<Self>;

    /// Converts a string position into this type; `None` when it does not fit.
    fn try_from_usize(value: usize) -> (r: Option<Self>)
        ensures
            r == Self::spec_try_from_usize(value),
    ;

    /// Converts this value to [`usize`].
    fn to_usize(self) -> (r: usize)
        ensures
            r == self.spec_to_usize(),
    ;

    /// The type's name is what [`Self::spec_type_name`] says.
    proof fn lemma_type_name()
        ensures
            Self::TYPE_NAME == Self::spec_type_name(),
    ;

    /// Zero always fits, and a string position that fits is read back unchanged.
    proof fn lemma_index_conversions(value: usize)
        ensures
            Self::spec_try_from_usize(0) is Some,
            Self::spec_try_from_usize(value) is Some ==> Self::spec_try_from_usize(
                value,
            )->0.spec_to_usize() == value,
    ;
}

impl StringIndex for u8 {
    const TYPE_NAME: &'static str = "u8";

    open spec fn spec_type_name() -> &'static str {
        "u8"
    }

    proof fn lemma_type_name() {
    }

    open spec fn spec_to_usize(self) -> usize {
        self as usize
    }

    open spec fn spec_try_from_usize(value: usize) -> Option<Self> {
        if value <= 0xff {
            Some(value as u8)
        } else {
            None
        }
    }

    #[inline]
    fn try_from_usize(value: usize) -> (r: Option<Self>) {
        if value <= 0xff {
            Some(value as u8)
        } else {
            None
        }
    }

    #[inline]
    fn to_usize(self) -> (r: usize) {
        self as usize
    }

    proof fn lemma_index_conversions(value: usize) {
    }
}

impl StringIndex for u16 {
    const TYPE_NAME: &'static str = "u16";

    open spec fn spec_type_name() -> &'static str {
        "u16"
    }

    proof fn lemma_type_name() {
    }

    open spec fn spec_to_usize(self) -> usize {
        self as usize
    }

    open spec fn spec_try_from_usize(value: usize) -> Option<Self> {
        if value <= 0xffff {
            Some(value as u16)
        } else {
            None
        }
    }

    #[inline]
    fn try_from_usize(value: usize) -> (r: Option<Self>) {
        if value <= 0xffff {
            Some(value as u16)
        } else {
            None
        }
    }

    #[inline]
    fn to_usize(self) -> (r: usize) {
        self as usize
    }

    proof fn lemma_index_conversions(value: usize) {
    }
}

impl StringIndex for u32 {
    const TYPE_NAME: &'static str = "u32";

    open spec fn spec_type_name() -> &'static str {
        "u32"
    }

    proof fn lemma_type_name() {
    }

    open spec fn spec_to_usize(self) -> usize {
        self as usize
    }

    open spec fn spec_try_from_usize(value: usize) -> Option<Self> {
        if value <= 0xffff_ffff {
            Some(value as u32)
        } else {
            None
        }
    }

    #[inline]
    fn try_from_usize(value: usize) -> (r: Option<Self>) {
        if value <= 0xffff_ffff {
            Some(value as u32)
        } else {
            None
        }
    }

    #[inline]
    fn to_usize(self) -> (r: usize) {
        self as usize
    }

    proof fn lemma_index_conversions(value: usize) {
    }
}

impl StringIndex for u64 {
    const TYPE_NAME: &'static str = "u64";

    open spec fn spec_type_name() -> &'static str {
        "u64"
    }

    proof fn lemma_type_name() {
    }

    open spec fn spec_to_usize(self) -> usize {
        self as usize
    }

    open spec fn spec_try_from_usize(value: usize) -> Option<Self> {
        Some(value as u64)
    }

    #[inline]
    fn try_from_usize(value: usize) -> (r: Option<Self>) {
        Some(value as u64)
    }

    #[inline]
    fn to_usize(self) -> (r: usize) {
        self as usize
    }

    proof fn lemma_index_conversions(value: usize) {
    }
}

impl StringIndex for usize {
    const TYPE_NAME: &'static str = "usize";

    open spec fn spec_type_name() -> &'static str {
        "usize"
    }

    proof fn lemma_type_name() {
    }

    open spec fn spec_to_usize(self) -> usize {
        self as usize
    }

    open spec fn spec_try_from_usize(value: usize) -> Option<Self> {
        Some(value as usize)
    }

    #[inline]
    fn try_from_usize(value: usize) -> (r: Option<Self>) {
        Some(value as usize)
    }

    #[inline]
    fn to_usize(self) -> (r: usize) {
        self as usize
    }

    proof fn lemma_index_conversions(value: usize) {
    }
}

} // verus!
