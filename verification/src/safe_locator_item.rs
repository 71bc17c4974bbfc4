//! A handle to an individual locked item in the buffer locator.
//!
//! The handle names the item by its place in the chain. Acquiring one locks
//! the item; handing it back to `Buffers::release_item` releases the lock.

use vstd::prelude::*;

verus! {

/// Names one locked item: the header it lives in and its index there.
#[derive(Clone, Copy, Debug)]
pub struct SafeLocatorItem {
    pub header_index: usize,
    pub item_index: usize,
}

} // verus!
