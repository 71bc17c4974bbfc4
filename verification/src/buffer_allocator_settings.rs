//! Settings to pass to the buffer allocator.

use vstd::prelude::*;

use crate::cached::Cached;
use crate::mathematics;
use crate::mathematics::{spec_add_cap, spec_round_up, spec_sub_cap};

verus! {

/// Settings to pass to the buffer allocator.
#[derive(Debug, Clone, Copy)]
pub struct BufferAllocatorSettings {
    /// Minimum address of the allocation.
    pub min_address: usize,
    /// Maximum address of the allocation.
    pub max_address: usize,
    /// Required size of the data.
    pub size: u32,
    /// Process to allocate memory in, stored as process id.
    pub target_process_id: u32,
    /// Amount of times the library should retry after failing to allocate a region.
    pub retry_count: i32,
    /// Whether to use brute force to find a suitable address.
    pub brute_force: bool,
}

/// The size a sanitisation pass settles on: at least one byte, rounded up to
/// the allocation granularity.
pub open spec fn spec_sanitized_size(size: u32, granularity: int) -> int {
    spec_round_up(if size >= 1 { size as int } else { 1 }, granularity)
}

impl BufferAllocatorSettings {
    /// Initializes the buffer allocator with default settings.
    pub fn new(sys: &Cached) -> (r: Self)
        ensures
            r.min_address == 0,
            r.max_address == sys.max_address,
            r.size == 4096,
            r.target_process_id == sys.this_process_id,
            r.retry_count == 8,
            r.brute_force,
    {
        Self {
            min_address: 0,
            max_address: sys.max_address,
            size: 4096,
            target_process_id: sys.this_process_id,
            retry_count: 8,
            brute_force: true,
        }
    }

    /// Creates settings such that the returned buffer will always be within
    /// `proximity` bytes of `target`.
    pub fn from_proximity(proximity: usize, target: usize, size: usize, sys: &Cached) -> (r: Self)
        requires
            size <= u32::MAX,
        ensures
            r.max_address == spec_add_cap(target as int, proximity as int),
            r.min_address == spec_sub_cap(target as int, proximity as int),
            r.size == size,
            r.target_process_id == sys.this_process_id,
            r.retry_count == 8,
            r.brute_force,
    {
        Self {
            max_address: mathematics::add_with_overflow_cap(target, proximity),
            min_address: mathematics::subtract_with_underflow_cap(target, proximity),
            size: size as u32,
            ..Self::new(sys)
        }
    }

    /// Sanitizes the input values: the size becomes at least one byte and is
    /// rounded up to a whole multiple of the allocation granularity.
    pub fn sanitize(&mut self, sys: &Cached)
        requires
            sys.wf(),
            spec_sanitized_size(old(self).size, sys.allocation_granularity as int) <= u32::MAX,
        ensures
            final(self).min_address == old(self).min_address,
            final(self).max_address == old(self).max_address,
            final(self).target_process_id == old(self).target_process_id,
            final(self).retry_count == old(self).retry_count,
            final(self).brute_force == old(self).brute_force,
            final(self).size == spec_sanitized_size(old(self).size, sys.allocation_granularity as int),
            final(self).size >= old(self).size,
            final(self).size >= 1,
            final(self).size as int % (sys.allocation_granularity as int) == 0,
    {
        let granularity: usize = sys.get_allocation_granularity() as usize;
        if self.size < 1 {
            self.size = 1;
        }
        self.size = mathematics::round_up(self.size as usize, granularity) as u32;
    }
}

} // verus!
