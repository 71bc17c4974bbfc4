//! The two ways handing out a new item from a locator header can fail.

use vstd::prelude::*;

verus! {

#[derive(PartialEq, Eq, Structural, Clone, Copy, Debug)]
pub enum ItemAllocationError {
    /// The header's inline item table has no slot left.
    NoSpaceInHeader,
    /// The operating system could not reserve memory in the requested window.
    CannotAllocateMemory,
}

impl ItemAllocationError {
    /// A short, stable description of the error.
    pub fn as_string(&self) -> (r: &'static str)
        ensures
            *self == ItemAllocationError::NoSpaceInHeader ==> r@ == "No more space in locator header"@,
            *self == ItemAllocationError::CannotAllocateMemory ==> r@ == "Could not allocate memory"@,
    {
        match self {
            ItemAllocationError::NoSpaceInHeader => "No more space in locator header",
            ItemAllocationError::CannotAllocateMemory => "Could not allocate memory",
        }
    }
}

} // verus!
