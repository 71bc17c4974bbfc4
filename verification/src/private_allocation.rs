//! Information about a privately made allocation.
//!
//! The record describes a reservation that belongs to its holder alone. The
//! operating-system release on drop is the embedder's step; the record holds
//! the plain values that step needs.

use vstd::prelude::*;

verus! {

/// Provides information about a recently made allocation.
#[derive(Clone, Copy, Debug)]
pub struct PrivateAllocation {
    /// Address of the buffer in memory; never null.
    pub base_address: usize,
    /// Exact size of allocated data.
    pub size: usize,
    /// Id of the process where the allocation was made.
    pub this_process_id: u32,
}

impl PrivateAllocation {
    /// A real allocation never sits at address zero.
    pub open spec fn wf(&self) -> bool {
        self.base_address != 0
    }

    /// Creates a private allocation record returned to the user upon
    /// allocating a region of memory.
    pub fn new(base_address: usize, size: usize, process_id: u32) -> (r: Self)
        requires
            base_address != 0,
        ensures
            r.base_address == base_address,
            r.size == size,
            r.this_process_id == process_id,
            r.wf(),
    {
        Self { base_address, size, this_process_id: process_id }
    }

    /// Gets the base address of the allocation.
    pub fn base_address(&self) -> (r: usize)
        ensures
            r == self.base_address,
    {
        self.base_address
    }

    /// Gets the size of the allocation.
    pub fn size(&self) -> (r: usize)
        ensures
            r == self.size,
    {
        self.size
    }
}

} // verus!
