//! A thin wrapper marking a field whose on-disk placement is unaligned.
//!
//! The shared locator uses a packed wire format, so pointer-width fields are
//! stored without their natural alignment; this type marks those fields.

use vstd::prelude::*;

verus! {

#[derive(Clone, Copy, Debug)]
pub struct Unaligned<T> {
    pub value: T,
}

impl<T> Unaligned<T> {
    pub fn new(value: T) -> (r: Self)
        ensures
            r.value == value,
    {
        Self { value }
    }
}

} // verus!
