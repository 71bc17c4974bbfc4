//! Process-wide memory parameters: maximum user-space address, allocation
//! granularity, page size and the owning process id.
//!
//! The granularity and page size are queried from the platform's mapping
//! layer; the maximum user-space address and the process id are plain
//! platform facts that the embedder supplies.

use vstd::prelude::*;

verus! {

/// Relies on mmap_rs_with_map_from_existing::MmapOptions::page_size:
/// the system page size, queried from the platform. Nothing is promised of
/// the value; callers treat it as an arbitrary machine parameter.
#[verifier::external_body]
fn query_page_size() -> usize {
    mmap_rs_with_map_from_existing::MmapOptions::page_size()
}

/// Relies on mmap_rs_with_map_from_existing::MmapOptions::allocation_granularity:
/// the platform's allocation granularity. Nothing is promised of the value;
/// callers treat it as an arbitrary machine parameter.
#[verifier::external_body]
fn query_allocation_granularity() -> usize {
    mmap_rs_with_map_from_existing::MmapOptions::allocation_granularity()
}

/// What the cache makes of the two queried platform values: the granularity
/// raised to at least the page size, then clamped into `[1, i32::MAX]`.
pub open spec fn spec_clamped_granularity(granularity_raw: int, page_size_raw: int) -> int {
    let raised = if granularity_raw >= page_size_raw {
        granularity_raw
    } else {
        page_size_raw
    };
    if raised == 0 {
        1
    } else if raised > i32::MAX {
        i32::MAX as int
    } else {
        raised
    }
}

/// Raises the queried allocation granularity to at least the queried page
/// size and clamps the result into a positive signed word, so that later
/// arithmetic on the granularity is total.
pub fn clamp_granularity(granularity_raw: usize, page_size_raw: usize) -> (r: i32)
    ensures
        r as int == spec_clamped_granularity(granularity_raw as int, page_size_raw as int),
        r >= 1,
{
    let raised: usize = if granularity_raw >= page_size_raw {
        granularity_raw
    } else {
        page_size_raw
    };
    if raised == 0 {
        1
    } else if raised > i32::MAX as usize {
        i32::MAX
    } else {
        raised as i32
    }
}

#[derive(Clone, Copy, Debug)]
pub struct Cached {
    pub max_address: usize,
    pub allocation_granularity: i32,
    pub page_size: u32,
    pub this_process_id: u32,
}

impl Cached {
    /// The cache always carries a usable, positive granularity.
    pub open spec fn wf(&self) -> bool {
        self.allocation_granularity >= 1
    }

    /// Queries the platform once and fixes the values for the process.
    ///
    /// `max_address` is the highest user-space address the platform grants
    /// (a documented conservative value where no query exists), and
    /// `this_process_id` the caller's process id. What becomes of the two
    /// queried values is `clamp_granularity`'s exact contract: the
    /// granularity is raised to at least the page size, then clamped into a
    /// positive signed word so later arithmetic is total.
    pub fn new(max_address: usize, this_process_id: u32) -> (r: Cached)
        ensures
            r.wf(),
            r.max_address == max_address,
            r.page_size == 4096,
            r.this_process_id == this_process_id,
    {
        let page_size_raw: usize = query_page_size();
        let granularity_raw: usize = query_allocation_granularity();

        Cached {
            max_address,
            allocation_granularity: clamp_granularity(granularity_raw, page_size_raw),
            page_size: 4096,
            this_process_id,
        }
    }

    /// The allocation granularity this cache was built with.
    pub fn get_allocation_granularity(&self) -> (r: i32)
        ensures
            r == self.allocation_granularity,
    {
        self.allocation_granularity
    }
}

} // verus!
