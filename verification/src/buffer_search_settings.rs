//! Settings to pass to buffer search mechanisms.

use vstd::prelude::*;

use crate::cached::Cached;
use crate::mathematics;
use crate::mathematics::{spec_add_cap, spec_sub_cap};

verus! {

/// Settings to pass to buffer search mechanisms.
#[derive(Debug, Clone, Copy)]
pub struct BufferSearchSettings {
    /// Minimum address of the allocation.
    pub min_address: usize,
    /// Maximum address of the allocation.
    pub max_address: usize,
    /// Required size of the data.
    pub size: u32,
}

/// The same search settings with only the size replaced.
pub open spec fn spec_with_size(settings: BufferSearchSettings, size: u32) -> BufferSearchSettings {
    BufferSearchSettings { size, ..settings }
}

impl BufferSearchSettings {
    /// Initializes the buffer search with default settings.
    pub fn new(sys: &Cached) -> (r: Self)
        ensures
            r.min_address == 0,
            r.max_address == sys.max_address,
            r.size == 4096,
    {
        Self { min_address: 0, max_address: sys.max_address, size: 4096 }
    }

    /// Creates settings such that the returned buffer will always be within
    /// `proximity` bytes of `target`.
    pub fn from_proximity(proximity: usize, target: usize, size: usize) -> (r: Self)
        requires
            size <= u32::MAX,
        ensures
            r.max_address == spec_add_cap(target as int, proximity as int),
            r.min_address == spec_sub_cap(target as int, proximity as int),
            r.size == size,
    {
        Self {
            max_address: mathematics::add_with_overflow_cap(target, proximity),
            min_address: mathematics::subtract_with_underflow_cap(target, proximity),
            size: size as u32,
        }
    }
}

} // verus!
