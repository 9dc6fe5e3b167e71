use vstd::prelude::*;

verus! {

/// Marks the unsigned integer types that may serve as offsets and indices.
/// The trait cannot be named outside this crate, so no other type can
/// implement the contracts built on it.
pub trait Sealed {

}

impl Sealed for u8 {

}

impl Sealed for u16 {

}

impl Sealed for u32 {

}

impl Sealed for u64 {

}

impl Sealed for usize {

}

} // verus!
