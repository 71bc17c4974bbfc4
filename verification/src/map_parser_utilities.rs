//! Turning a sorted list of committed memory regions into the list of gaps
//! between them: the free regions the allocator searches.

use vstd::prelude::*;

verus! {

/// A region in a process's virtual memory space.
#[derive(Debug)]
pub struct MemoryMapEntry {
    pub start_address: usize,
    pub end_address: usize,
}

impl MemoryMapEntry {
    pub fn new(start_address: usize, end_address: usize) -> (r: MemoryMapEntry)
        ensures
            r.start_address == start_address,
            r.end_address == end_address,
    {
        MemoryMapEntry { start_address, end_address }
    }
}

/// Read access to a region's bounds, for containers of regions kept by callers.
pub trait MemoryMapEntryTrait {
    fn start_address(&self) -> (r: usize);

    fn end_address(&self) -> (r: usize);
}

impl MemoryMapEntryTrait for MemoryMapEntry {
    fn start_address(&self) -> (r: usize) {
        self.start_address
    }

    fn end_address(&self) -> (r: usize) {
        self.end_address
    }
}

/// The gaps between consecutive mapped regions, walking `regions` in order
/// while the previous region ended at `last_end`: whenever the next region
/// starts above `last_end`, the bytes `[last_end, start - 1]` are free.
pub open spec fn spec_gaps(regions: Seq<MemoryMapEntry>, last_end: int) -> Seq<MemoryMapEntry>
    decreases regions.len(),
{
    if regions.len() == 0 {
        Seq::empty()
    } else {
        let head = regions[0];
        let rest = spec_gaps(regions.skip(1), head.end_address as int);
        if head.start_address > last_end {
            seq![
                MemoryMapEntry {
                    start_address: last_end as usize,
                    end_address: (head.start_address - 1) as usize,
                },
            ] + rest
        } else {
            rest
        }
    }
}

/// Where the walk ends: the last region's end, or zero when there is none.
pub open spec fn spec_last_end(regions: Seq<MemoryMapEntry>) -> int {
    if regions.len() == 0 {
        0
    } else {
        regions.last().end_address as int
    }
}

/// Every free region `spec_gaps` and the trailing slice produce.
pub open spec fn spec_free_regions(regions: Seq<MemoryMapEntry>, max_address: int) -> Seq<
    MemoryMapEntry,
> {
    spec_gaps(regions, 0) + if spec_last_end(regions) < max_address {
        seq![
            MemoryMapEntry {
                start_address: spec_last_end(regions) as usize,
                end_address: max_address as usize,
            },
        ]
    } else {
        Seq::empty()
    }
}

/// Returns all free regions between the given mapped regions, from address
/// zero up to `max_address`. The input must be sorted by address, regions
/// not overlapping, as a process memory map lists them.
pub fn get_free_regions(regions: &Vec<MemoryMapEntry>, max_address: usize) -> (free: Vec<
    MemoryMapEntry,
>)
    ensures
        free@ == spec_free_regions(regions@, max_address as int),
{
    let mut last_end_address: usize = 0;
    let mut free_regions: Vec<MemoryMapEntry> = Vec::new();
    let mut i: usize = 0;

    proof {
        assert(regions@.skip(0) =~= regions@);
        assert(Seq::<MemoryMapEntry>::empty() + spec_gaps(regions@, 0) =~= spec_gaps(regions@, 0));
        assert(regions@.take(0) =~= Seq::<MemoryMapEntry>::empty());
    }

    while i < regions.len()
        invariant
            i <= regions.len(),
            spec_gaps(regions@, 0) == free_regions@ + spec_gaps(
                regions@.skip(i as int),
                last_end_address as int,
            ),
            last_end_address as int == spec_last_end(regions@.take(i as int)),
        decreases regions.len() - i,
    {
        let entry_start: usize = regions[i].start_address;
        let entry_end: usize = regions[i].end_address;
        proof {
            assert(regions@.skip(i as int).len() > 0);
            assert(regions@.skip(i as int)[0] == regions@[i as int]);
            assert(regions@.skip(i as int).skip(1) =~= regions@.skip(i as int + 1));
            assert(regions@.take(i as int + 1).last() == regions@[i as int]);
        }
        if entry_start > last_end_address {
            let ghost pre = free_regions@;
            let gap = MemoryMapEntry {
                start_address: last_end_address,
                end_address: entry_start - 1,
            };
            free_regions.push(gap);
            proof {
                let rest = spec_gaps(regions@.skip(i as int + 1), entry_end as int);
                assert(free_regions@ =~= pre + seq![gap]);
                assert((pre + seq![gap]) + rest =~= pre + (seq![gap] + rest));
            }
        }

        last_end_address = entry_end;
        i = i + 1;
    }

    proof {
        assert(regions@.skip(regions@.len() as int) =~= Seq::<MemoryMapEntry>::empty());
        assert(regions@.take(regions@.len() as int) =~= regions@);
        assert(free_regions@ + Seq::<MemoryMapEntry>::empty() =~= free_regions@);
    }

    if last_end_address < max_address {
        free_regions.push(
            MemoryMapEntry { start_address: last_end_address, end_address: max_address },
        );
    }

    free_regions
}

} // verus!
