//! Individual item in the locator: one reserved region, how much of it has
//! been handed out, and a writer lock.
//!
//! The real reservation lives in the process's address space; this record is
//! the locator's accounting of it. Copying bytes to the returned addresses is
//! the embedder's step; the item tracks positions so that appended data never
//! overlaps and never leaves the region.

use vstd::prelude::*;

use crate::mathematics::spec_add_cap;
use crate::wrappers::Unaligned;

verus! {

/// Individual item in the locator.
#[derive(Debug)]
pub struct LocatorItem {
    /// Address of the buffer in memory.
    pub base_address: Unaligned<usize>,
    /// Size of the data in memory.
    pub size: u32,
    /// Current position of the buffer.
    pub position: u32,
    /// True if this item is locked by a writer, else false.
    pub is_taken: bool,
}

/// The given item with only its lock flag replaced.
pub open spec fn spec_with_taken(item: LocatorItem, taken: bool) -> LocatorItem {
    LocatorItem { is_taken: taken, ..item }
}

impl LocatorItem {
    /// What has been appended never exceeds the region, and the region lies
    /// within the address space.
    pub open spec fn wf(&self) -> bool {
        &&& self.position <= self.size
        &&& self.base_address.value + self.size <= usize::MAX
    }

    /// Whether this item describes a region usable for `size` more bytes
    /// entirely inside `[min_address, max_address]`: it is allocated, has
    /// `size` bytes left, its next free byte lies at or above `min_address`
    /// and its end at or below `max_address`.
    pub open spec fn spec_can_use(&self, size: u32, min_address: usize, max_address: usize) -> bool {
        &&& self.base_address.value != 0
        &&& self.size - self.position >= size
        &&& self.base_address.value + self.position >= min_address
        &&& spec_add_cap(self.base_address.value as int, self.size as int) <= max_address
    }

    /// Creates a new instance of `LocatorItem` given base address and size.
    pub fn new(base_address: usize, size: u32) -> (r: Self)
        requires
            base_address + size <= usize::MAX,
        ensures
            r.base_address.value == base_address,
            r.size == size,
            r.position == 0,
            !r.is_taken,
            r.wf(),
    {
        Self {
            base_address: Unaligned::new(base_address),
            size,
            position: 0,
            is_taken: false,
        }
    }

    /// Returns the amount of bytes left in the buffer.
    pub fn bytes_left(&self) -> (r: u32)
        requires
            self.wf(),
        ensures
            r == self.size - self.position,
    {
        self.size - self.position
    }

    /// Returns the minimum address of this locator item.
    pub fn min_address(&self) -> (r: usize)
        ensures
            r == self.base_address.value,
    {
        self.base_address.value
    }

    /// Returns the maximum address of this locator item.
    pub fn max_address(&self) -> (r: usize)
        requires
            self.wf(),
        ensures
            r == self.base_address.value + self.size,
    {
        self.base_address.value + self.size as usize
    }

    /// Returns true if the buffer is allocated, false otherwise.
    pub fn is_allocated(&self) -> (r: bool)
        ensures
            r == (self.base_address.value != 0),
    {
        self.base_address.value != 0
    }

    /// Returns true if the current item is locked, else false.
    pub fn is_taken(&self) -> (r: bool)
        ensures
            r == self.is_taken,
    {
        self.is_taken
    }

    /// Tries to acquire the lock.
    ///
    /// Returns true if the lock was successfully acquired, false otherwise.
    pub fn try_lock(&mut self) -> (r: bool)
        ensures
            *final(self) == spec_with_taken(*old(self), true),
            r == !old(self).is_taken,
    {
        let was_taken = self.is_taken;
        self.is_taken = true;
        !was_taken
    }

    /// Acquires the lock.
    ///
    /// The item is held exclusively while this runs, so nobody else could
    /// release the lock meanwhile: acquiring demands that the lock is free.
    pub fn lock(&mut self)
        requires
            !old(self).is_taken,
        ensures
            *final(self) == spec_with_taken(*old(self), true),
    {
        self.is_taken = true;
    }

    /// Unlocks the object.
    pub fn unlock(&mut self)
        ensures
            *final(self) == spec_with_taken(*old(self), false),
    {
        self.is_taken = false;
    }

    /// Determines if this locator item can be used given the constraints.
    ///
    /// # Arguments
    ///
    /// * `size` - Available bytes needed between `min_address` and `max_address`.
    /// * `min_address` - Minimum address accepted.
    /// * `max_address` - Maximum address accepted.
    pub fn can_use(&self, size: u32, min_address: usize, max_address: usize) -> (r: bool)
        requires
            self.wf(),
        ensures
            r == self.spec_can_use(size, min_address, max_address),
    {
        if !self.is_allocated() || self.bytes_left() < size {
            return false;
        }

        let start_available_address: usize = self.base_address.value + self.position as usize;
        let end_available_address: usize = crate::mathematics::add_with_overflow_cap(
            self.base_address.value,
            self.size as usize,
        );

        start_available_address >= min_address && end_available_address <= max_address
    }

    /// Appends data of the given length to this buffer and returns the address
    /// at which it lands: the first byte past what was appended before. The
    /// position advances by the data's length.
    ///
    /// The caller ensures there is sufficient space in the buffer; buffers
    /// returned by the library carry at least the requested amount.
    pub fn append_bytes(&mut self, data: &[u8]) -> (address: usize)
        requires
            old(self).wf(),
            old(self).position + data@.len() <= old(self).size,
        ensures
            address == old(self).base_address.value + old(self).position,
            final(self).position == old(self).position + data@.len(),
            final(self).base_address == old(self).base_address,
            final(self).size == old(self).size,
            final(self).is_taken == old(self).is_taken,
            final(self).wf(),
    {
        let address: usize = self.base_address.value + self.position as usize;
        let data_len: usize = data.len();

        self.position = self.position + data_len as u32;

        address
    }
}

/// Releasing a lock right after taking it returns the item to exactly the
/// state it started in: the lock round-trip only touches the lock flag.
pub proof fn lemma_item_lock_unlock_roundtrip(x: LocatorItem)
    requires
        !x.is_taken,
    ensures
        spec_with_taken(spec_with_taken(x, true), false) == x,
{
}

} // verus!
