//! The allocation search: generating candidate addresses inside a free page
//! and a caller window, and walking the free regions for the first address a
//! reservation can be requested at.
//!
//! The operating-system call that turns the chosen address into a real
//! reservation cannot live here; the embedder performs it and may walk the
//! same candidates when a reservation is refused. What this module fixes is
//! which addresses are tried, in which order, and what holds of each.

use vstd::prelude::*;

use crate::address_range::AddressRange;
use crate::buffer_allocation_error::BufferAllocationError;
use crate::buffer_allocator_settings::{spec_sanitized_size, BufferAllocatorSettings};
use crate::cached::Cached;
use crate::locator_item::LocatorItem;
use crate::map_parser_utilities::MemoryMapEntry;
use crate::mathematics;
use crate::mathematics::{spec_round_down, spec_round_up_capped, spec_sub_cap};

verus! {

/// A placement `[c, e]` acceptable for the window `[min, max]` and the page
/// `[ps, pe]`: it must lie inside both.
pub open spec fn spec_placement_fits(c: int, e: int, min: int, max: int, ps: int, pe: int) -> bool {
    ps <= c && e <= pe && min <= c && e <= max
}

/// Whether the window `[min, max]` and the page `[ps, pe]` share a point.
pub open spec fn spec_windows_overlap(min: int, max: int, ps: int, pe: int) -> bool {
    (ps <= min <= pe) || (ps <= max <= pe) || (min <= ps <= max) || (min <= pe <= max)
}

/// The candidate addresses for placing `size` bytes inside the page
/// `[ps, pe]` under the window `[min, max]`, aligned to `g`, in the order the
/// search tries them: anchored low and high at the page, then low and high at
/// the window. Nothing is emitted when the page and window are disjoint or
/// the page is too small, and a placement whose true end would not be
/// representable never fits, so saturated roundings near the word top are
/// filtered out rather than handed on.
pub open spec fn spec_candidate_list(
    min: int,
    max: int,
    ps: int,
    pe: int,
    size: int,
    g: int,
) -> Seq<usize> {
    if !spec_windows_overlap(min, max, ps, pe) || size > pe - ps {
        Seq::empty()
    } else {
        let c1 = spec_round_up_capped(ps, g);
        let e1 = c1 + size;
        let c2 = spec_round_down(spec_sub_cap(pe, size), g);
        let e2 = c2 + size;
        let c3 = spec_round_up_capped(min, g);
        let e3 = c3 + size;
        let c4 = spec_round_down(spec_sub_cap(max, size), g);
        let e4 = c4 + size;
        (if spec_placement_fits(c1, e1, min, max, ps, pe) {
            seq![c1 as usize]
        } else {
            Seq::empty()
        }) + (if spec_placement_fits(c2, e2, min, max, ps, pe) {
            seq![c2 as usize]
        } else {
            Seq::empty()
        }) + (if spec_placement_fits(c3, e3, min, max, ps, pe) {
            seq![c3 as usize]
        } else {
            Seq::empty()
        }) + (if spec_placement_fits(c4, e4, min, max, ps, pe) {
            seq![c4 as usize]
        } else {
            Seq::empty()
        })
    }
}

/// The first non-null address of a candidate list. Address zero is never
/// handed out: it marks an unallocated item, and no platform grants page
/// zero to a reservation.
pub open spec fn spec_first_nonzero(cs: Seq<usize>) -> Option<usize>
    decreases cs.len(),
{
    if cs.len() == 0 {
        None
    } else if cs[0] != 0 {
        Some(cs[0])
    } else {
        spec_first_nonzero(cs.skip(1))
    }
}

/// The address the search settles on: the first usable candidate of the
/// first free region that yields one, walking regions in order and stopping
/// at the first region that starts beyond the window.
pub open spec fn spec_search_regions(
    regions: Seq<MemoryMapEntry>,
    min: int,
    max: int,
    size: int,
    g: int,
) -> Option<usize>
    decreases regions.len(),
{
    if regions.len() == 0 {
        None
    } else if regions[0].start_address > max {
        None
    } else {
        match spec_first_nonzero(
            spec_candidate_list(
                min,
                max,
                regions[0].start_address as int,
                regions[0].end_address as int,
                size,
                g,
            ),
        ) {
            Some(c) => Some(c),
            None => spec_search_regions(regions.skip(1), min, max, size, g),
        }
    }
}

/// The search resumed from a cursor: candidates before index `j` of region
/// `i` count as already tried (and refused by the platform), and the walk
/// continues exactly as the plain search would from there.
pub open spec fn spec_search_regions_at(
    regions: Seq<MemoryMapEntry>,
    i: int,
    j: int,
    min: int,
    max: int,
    size: int,
    g: int,
) -> Option<usize>
    decreases regions.len() - i,
{
    if i < 0 || i >= regions.len() {
        None
    } else if regions[i].start_address > max {
        None
    } else {
        let cs = spec_candidate_list(
            min,
            max,
            regions[i].start_address as int,
            regions[i].end_address as int,
            size,
            g,
        );
        let clamped = if j < 0 {
            0
        } else if j > cs.len() {
            cs.len() as int
        } else {
            j
        };
        match spec_first_nonzero(cs.skip(clamped)) {
            Some(c) => Some(c),
            None => spec_search_regions_at(regions, i + 1, 0, min, max, size, g),
        }
    }
}

/// Started at the first region and its first candidate, the resumable
/// search agrees with the plain one.
pub proof fn lemma_search_regions_at_start(
    regions: Seq<MemoryMapEntry>,
    i: int,
    min: int,
    max: int,
    size: int,
    g: int,
)
    requires
        0 <= i <= regions.len(),
    ensures
        spec_search_regions_at(regions, i, 0, min, max, size, g) == spec_search_regions(
            regions.skip(i),
            min,
            max,
            size,
            g,
        ),
    decreases regions.len() - i,
{
    if i < regions.len() {
        assert(regions.skip(i)[0] == regions[i]);
        assert(regions.skip(i).skip(1) =~= regions.skip(i + 1));
        if regions[i].start_address <= max {
            let cs = spec_candidate_list(
                min,
                max,
                regions[i].start_address as int,
                regions[i].end_address as int,
                size,
                g,
            );
            assert(cs.skip(0) =~= cs);
            lemma_search_regions_at_start(regions, i + 1, min, max, size, g);
        }
    } else {
        assert(regions.skip(i) =~= Seq::<MemoryMapEntry>::empty());
    }
}

/// Every emitted candidate starts at or above the window's minimum and ends
/// at or below its maximum.
pub proof fn lemma_candidate_list_props(min: int, max: int, ps: int, pe: int, size: int, g: int)
    requires
        0 <= min,
        0 <= ps <= pe <= usize::MAX,
        0 <= size,
    ensures
        forall|k: int|
            0 <= k < spec_candidate_list(min, max, ps, pe, size, g).len() ==> {
                let c = #[trigger] spec_candidate_list(min, max, ps, pe, size, g)[k];
                min <= c && c + size <= max
            },
{
}

/// A found first non-null candidate is one of the candidates, and non-null.
pub proof fn lemma_first_nonzero_props(cs: Seq<usize>)
    ensures
        spec_first_nonzero(cs) is Some ==> {
            let c = spec_first_nonzero(cs)->Some_0;
            c != 0 && exists|k: int| 0 <= k < cs.len() && cs[k] == c
        },
    decreases cs.len(),
{
    if cs.len() > 0 && cs[0] == 0 {
        lemma_first_nonzero_props(cs.skip(1));
        if spec_first_nonzero(cs.skip(1)) is Some {
            let c = spec_first_nonzero(cs.skip(1))->Some_0;
            let k = choose|k: int| 0 <= k < cs.skip(1).len() && cs.skip(1)[k] == c;
            assert(cs[k + 1] == c);
        }
    }
}

/// An address the region search settles on is non-null, lies at or above the
/// window's minimum, and leaves room for `size` bytes below its maximum.
pub proof fn lemma_search_regions_props(
    regions: Seq<MemoryMapEntry>,
    min: int,
    max: int,
    size: int,
    g: int,
)
    requires
        0 <= min,
        0 <= size,
        forall|k: int|
            0 <= k < regions.len() ==> regions[k].start_address <= regions[k].end_address,
    ensures
        spec_search_regions(regions, min, max, size, g) is Some ==> {
            let c = spec_search_regions(regions, min, max, size, g)->Some_0;
            c != 0 && min <= c && c + size <= max
        },
    decreases regions.len(),
{
    if regions.len() > 0 && regions[0].start_address <= max {
        let cs = spec_candidate_list(
            min,
            max,
            regions[0].start_address as int,
            regions[0].end_address as int,
            size,
            g,
        );
        lemma_first_nonzero_props(cs);
        lemma_candidate_list_props(
            min,
            max,
            regions[0].start_address as int,
            regions[0].end_address as int,
            size,
            g,
        );
        lemma_search_regions_props(regions.skip(1), min, max, size, g);
    }
}

/// A list with a non-null entry has a non-null first entry to find.
proof fn lemma_first_nonzero_exists(cs: Seq<usize>)
    requires
        exists|k: int| 0 <= k < cs.len() && cs[k] != 0,
    ensures
        spec_first_nonzero(cs) is Some,
    decreases cs.len(),
{
    let k = choose|k: int| 0 <= k < cs.len() && cs[k] != 0;
    if cs[0] == 0 {
        assert(cs.skip(1)[k - 1] != 0);
        lemma_first_nonzero_exists(cs.skip(1));
    }
}

/// An allocation whose window is a single address either settles exactly on
/// that address or fails; with at least one byte requested, no placement can
/// both start at or above the address and end at or below it, so the search
/// in fact always fails.
pub proof fn lemma_allocation_min_equals_max(
    regions: Seq<MemoryMapEntry>,
    min: int,
    max: int,
    size: int,
    g: int,
)
    requires
        min == max,
        size >= 1,
        0 <= min,
        forall|k: int|
            0 <= k < regions.len() ==> regions[k].start_address <= regions[k].end_address,
    ensures
        match spec_search_regions(regions, min, max, size, g) {
            Some(c) => c == min,
            None => true,
        },
        spec_search_regions(regions, min, max, size, g) is None,
{
    lemma_search_regions_props(regions, min, max, size, g);
}

/// An allocation whose window runs up to the platform's maximum address
/// succeeds when free space exists just below it: a final free region that
/// reaches the maximum and whose start leaves room for the rounded-down
/// high placement always yields a candidate.
pub proof fn lemma_allocation_up_to_max_succeeds(
    regions: Seq<MemoryMapEntry>,
    min: int,
    max: int,
    size: int,
    g: int,
)
    requires
        regions.len() > 0,
        forall|k: int|
            0 <= k < regions.len() ==> regions[k].start_address <= regions[k].end_address,
        forall|k: int| 0 <= k < regions.len() ==> regions[k].start_address <= max,
        regions.last().end_address == max,
        1 <= size <= max,
        0 <= min,
        spec_round_down(max - size, g) >= regions.last().start_address,
        spec_round_down(max - size, g) >= min,
        spec_round_down(max - size, g) >= 1,
    ensures
        spec_search_regions(regions, min, max, size, g) is Some,
    decreases regions.len(),
{
    if regions.len() == 1 {
        let ps = regions[0].start_address as int;
        let pe = regions[0].end_address as int;
        let c4 = spec_round_down(spec_sub_cap(max, size), g);
        assert(spec_sub_cap(max, size) == max - size);
        assert(spec_placement_fits(c4, c4 + size, min, max, ps, pe));
        assert(spec_windows_overlap(min, max, ps, pe));
        let cs = spec_candidate_list(min, max, ps, pe, size, g);
        assert(cs.last() == c4 as usize);
        assert(cs[cs.len() - 1] != 0);
        lemma_first_nonzero_exists(cs);
    } else {
        match spec_first_nonzero(
            spec_candidate_list(
                min,
                max,
                regions[0].start_address as int,
                regions[0].end_address as int,
                size,
                g,
            ),
        ) {
            Some(c) => {},
            None => {
                assert(regions.skip(1).last() == regions.last());
                lemma_allocation_up_to_max_succeeds(regions.skip(1), min, max, size, g);
            },
        }
    }
}

/// Emits up to four candidate addresses for placing a buffer of `buf_size`
/// bytes inside the free page `[page_start, page_end]` while staying inside
/// `[minimum_ptr, maximum_ptr]`, each aligned to the allocation granularity
/// where rounding does not saturate.
///
/// Both anchor families are tried because either the window or the page may
/// be the stricter constraint. Nothing is emitted when the two are disjoint,
/// or when the buffer does not fit the page.
pub fn get_possible_buffer_addresses(
    minimum_ptr: usize,
    maximum_ptr: usize,
    page_start: usize,
    page_end: usize,
    buf_size: usize,
    allocation_granularity: usize,
) -> (results: Vec<usize>)
    requires
        page_start <= page_end,
    ensures
        results@ == spec_candidate_list(
            minimum_ptr as int,
            maximum_ptr as int,
            page_start as int,
            page_end as int,
            buf_size as int,
            allocation_granularity as int,
        ),
        !spec_windows_overlap(
            minimum_ptr as int,
            maximum_ptr as int,
            page_start as int,
            page_end as int,
        ) ==> results@.len() == 0,
        buf_size > page_end - page_start ==> results@.len() == 0,
{
    let min_max_range = AddressRange::new(minimum_ptr, maximum_ptr);
    let page_range = AddressRange::new(page_start, page_end);
    let mut results: Vec<usize> = Vec::new();

    // Check if there is any overlap at all.
    if !page_range.overlaps(&min_max_range) {
        proof {
            assert(results@ =~= spec_candidate_list(
                minimum_ptr as int,
                maximum_ptr as int,
                page_start as int,
                page_end as int,
                buf_size as int,
                allocation_granularity as int,
            ));
        }
        return results;
    }

    // The page must be able to hold the buffer at all.
    if buf_size > page_range.size() {
        proof {
            assert(results@ =~= spec_candidate_list(
                minimum_ptr as int,
                maximum_ptr as int,
                page_start as int,
                page_end as int,
                buf_size as int,
                allocation_granularity as int,
            ));
        }
        return results;
    }

    let ghost s1: Seq<usize>;
    let ghost s2: Seq<usize>;
    let ghost s3: Seq<usize>;
    let ghost s4: Seq<usize>;

    // Round up from page min.
    let page_min_aligned = mathematics::round_up(page_start, allocation_granularity);
    if buf_size <= usize::MAX - page_min_aligned {
        let page_min_range = AddressRange::new(page_min_aligned, page_min_aligned + buf_size);
        if page_range.contains(&page_min_range) && min_max_range.contains(&page_min_range) {
            results.push(page_min_range.start_pointer);
            proof {
                s1 = seq![page_min_range.start_pointer];
            }
        } else {
            proof {
                s1 = Seq::empty();
            }
        }
    } else {
        proof {
            s1 = Seq::empty();
        }
    }
    proof {
        assert(results@ =~= s1);
    }

    // Round down from page max.
    let page_max_aligned = mathematics::round_down(
        mathematics::subtract_with_underflow_cap(page_end, buf_size),
        allocation_granularity,
    );
    let page_max_range = AddressRange::new(page_max_aligned, page_max_aligned + buf_size);
    if page_range.contains(&page_max_range) && min_max_range.contains(&page_max_range) {
        results.push(page_max_range.start_pointer);
        proof {
            s2 = seq![page_max_range.start_pointer];
        }
    } else {
        proof {
            s2 = Seq::empty();
        }
    }
    proof {
        assert(results@ =~= s1 + s2);
    }

    // Round up from ptr min.
    let ptr_min_aligned = mathematics::round_up(minimum_ptr, allocation_granularity);
    if buf_size <= usize::MAX - ptr_min_aligned {
        let ptr_min_range = AddressRange::new(ptr_min_aligned, ptr_min_aligned + buf_size);
        if page_range.contains(&ptr_min_range) && min_max_range.contains(&ptr_min_range) {
            results.push(ptr_min_range.start_pointer);
            proof {
                s3 = seq![ptr_min_range.start_pointer];
            }
        } else {
            proof {
                s3 = Seq::empty();
            }
        }
    } else {
        proof {
            s3 = Seq::empty();
        }
    }
    proof {
        assert(results@ =~= (s1 + s2) + s3);
    }

    // Round down from ptr max.
    let ptr_max_aligned = mathematics::round_down(
        mathematics::subtract_with_underflow_cap(maximum_ptr, buf_size),
        allocation_granularity,
    );
    let ptr_max_range = AddressRange::new(ptr_max_aligned, ptr_max_aligned + buf_size);
    if page_range.contains(&ptr_max_range) && min_max_range.contains(&ptr_max_range) {
        results.push(ptr_max_range.start_pointer);
        proof {
            s4 = seq![ptr_max_range.start_pointer];
        }
    } else {
        proof {
            s4 = Seq::empty();
        }
    }
    proof {
        assert(results@ =~= ((s1 + s2) + s3) + s4);
        assert(results@ =~= spec_candidate_list(
            minimum_ptr as int,
            maximum_ptr as int,
            page_start as int,
            page_end as int,
            buf_size as int,
            allocation_granularity as int,
        ));
    }

    results
}

/// Finds the next address the search would try, at or after the given
/// cursor: region `region_index`, with that region's first
/// `candidate_index` candidates counted as already tried. Returns the
/// address together with its cursor position.
///
/// This is how an embedder copes with the platform refusing a fixed
/// reservation, or granting it at another address: release the mismatch,
/// resume one candidate past the refusal, and keep walking until the
/// search is exhausted. The settings are taken as they are; callers pass
/// them sanitized, as `allocate` would leave them.
#[verifier::loop_isolation(false)]
#[verifier::rlimit(100)]
pub fn next_buffer_candidate(
    settings: &BufferAllocatorSettings,
    sys: &Cached,
    regions: &Vec<MemoryMapEntry>,
    region_index: usize,
    candidate_index: usize,
) -> (r: Option<(usize, usize, usize)>)
    requires
        sys.wf(),
        forall|k: int|
            0 <= k < regions@.len() ==> regions@[k].start_address <= regions@[k].end_address,
    ensures
        r is Some <==> spec_search_regions_at(
            regions@,
            region_index as int,
            candidate_index as int,
            settings.min_address as int,
            settings.max_address as int,
            settings.size as int,
            sys.allocation_granularity as int,
        ) is Some,
        r matches Some(found) ==> ({
            let cs = spec_candidate_list(
                settings.min_address as int,
                settings.max_address as int,
                regions@[found.1 as int].start_address as int,
                regions@[found.1 as int].end_address as int,
                settings.size as int,
                sys.allocation_granularity as int,
            );
            &&& Some(found.0) == spec_search_regions_at(
                regions@,
                region_index as int,
                candidate_index as int,
                settings.min_address as int,
                settings.max_address as int,
                settings.size as int,
                sys.allocation_granularity as int,
            )
            &&& found.0 != 0
            &&& found.0 >= settings.min_address
            &&& found.0 + settings.size <= settings.max_address
            &&& region_index <= found.1 < regions@.len()
            &&& found.2 < cs.len()
            &&& cs[found.2 as int] == found.0
            &&& (found.1 == region_index ==> found.2 >= candidate_index)
        }),
{
    let granularity: usize = sys.get_allocation_granularity() as usize;
    let min_address: usize = settings.min_address;
    let max_address: usize = settings.max_address;
    let size: u32 = settings.size;

    let ghost g = granularity as int;
    let ghost full = regions@;
    let ghost target = spec_search_regions_at(
        full,
        region_index as int,
        candidate_index as int,
        min_address as int,
        max_address as int,
        size as int,
        g,
    );

    let mut i: usize = region_index;
    let mut j0: usize = candidate_index;

    while i < regions.len()
        invariant
            region_index <= i,
            i > region_index ==> j0 == 0,
            i == region_index ==> j0 == candidate_index,
            target == spec_search_regions_at(
                full,
                i as int,
                j0 as int,
                min_address as int,
                max_address as int,
                size as int,
                g,
            ),
        decreases regions.len() - i,
    {
        let region_start: usize = regions[i].start_address;
        let region_end: usize = regions[i].end_address;

        if region_start > max_address {
            return None;
        }

        let candidates = get_possible_buffer_addresses(
            min_address,
            max_address,
            region_start,
            region_end,
            size as usize,
            granularity,
        );
        let ghost cs = candidates@;

        let start: usize = if j0 < candidates.len() {
            j0
        } else {
            candidates.len()
        };
        proof {
            // The exec start index equals the spec's clamped cursor.
            assert(start as int == if j0 as int > cs.len() {
                cs.len() as int
            } else {
                j0 as int
            });
        }

        let mut j: usize = start;
        while j < candidates.len()
            invariant
                start <= j <= candidates.len(),
                cs == candidates@,
                spec_first_nonzero(cs.skip(start as int)) == spec_first_nonzero(cs.skip(j as int)),
            decreases candidates.len() - j,
        {
            proof {
                assert(cs.skip(j as int)[0] == cs[j as int]);
                assert(cs.skip(j as int).skip(1) =~= cs.skip(j as int + 1));
            }
            let candidate: usize = candidates[j];
            if candidate != 0 {
                proof {
                    assert(spec_first_nonzero(cs.skip(j as int)) == Some(candidate));
                    lemma_candidate_list_props(
                        min_address as int,
                        max_address as int,
                        region_start as int,
                        region_end as int,
                        size as int,
                        g,
                    );
                }
                return Some((candidate, i, j));
            }
            j = j + 1;
        }
        proof {
            assert(cs.skip(candidates@.len() as int) =~= Seq::<usize>::empty());
        }

        i = i + 1;
        j0 = 0;
    }

    None
}

/// Searches the given free regions for an address where a buffer satisfying
/// the settings can be placed, and describes the reservation the search
/// settles on as a locator item at that address.
///
/// The settings are sanitized first; the item's size is the sanitized size.
/// An address is returned exactly when some region yields a candidate, and
/// it always lies inside the requested window.
#[verifier::loop_isolation(false)]
#[verifier::rlimit(60)]
pub fn allocate(
    settings: &mut BufferAllocatorSettings,
    sys: &Cached,
    regions: &Vec<MemoryMapEntry>,
) -> (r: Result<LocatorItem, BufferAllocationError>)
    requires
        sys.wf(),
        spec_sanitized_size(old(settings).size, sys.allocation_granularity as int) <= u32::MAX,
        forall|k: int|
            0 <= k < regions@.len() ==> regions@[k].start_address <= regions@[k].end_address,
    ensures
        final(settings).min_address == old(settings).min_address,
        final(settings).max_address == old(settings).max_address,
        final(settings).target_process_id == old(settings).target_process_id,
        final(settings).retry_count == old(settings).retry_count,
        final(settings).brute_force == old(settings).brute_force,
        final(settings).size == spec_sanitized_size(
            old(settings).size,
            sys.allocation_granularity as int,
        ),
        final(settings).size >= old(settings).size,
        r is Ok <==> spec_search_regions(
            regions@,
            final(settings).min_address as int,
            final(settings).max_address as int,
            final(settings).size as int,
            sys.allocation_granularity as int,
        ) is Some,
        r matches Ok(item) ==> {
            &&& Some(item.base_address.value) == spec_search_regions(
                regions@,
                final(settings).min_address as int,
                final(settings).max_address as int,
                final(settings).size as int,
                sys.allocation_granularity as int,
            )
            &&& item.base_address.value != 0
            &&& item.base_address.value >= final(settings).min_address
            &&& item.base_address.value + item.size <= final(settings).max_address
            &&& item.size == final(settings).size
            &&& item.position == 0
            &&& !item.is_taken
            &&& item.wf()
        },
        r matches Err(e) ==> e.settings == *final(settings) && e.text@
            == "Failed to allocate buffer"@,
{
    settings.sanitize(sys);

    let granularity: usize = sys.get_allocation_granularity() as usize;
    let min_address: usize = settings.min_address;
    let max_address: usize = settings.max_address;
    let size: u32 = settings.size;

    let ghost g = granularity as int;
    let ghost full = regions@;

    let mut i: usize = 0;
    proof {
        assert(full.skip(0) =~= full);
    }

    while i < regions.len()
        invariant
            i <= regions.len(),
            full == regions@,
            g == granularity as int,
            settings.min_address == old(settings).min_address,
            settings.max_address == old(settings).max_address,
            settings.target_process_id == old(settings).target_process_id,
            settings.retry_count == old(settings).retry_count,
            settings.brute_force == old(settings).brute_force,
            settings.size == spec_sanitized_size(
                old(settings).size,
                sys.allocation_granularity as int,
            ),
            min_address == settings.min_address,
            max_address == settings.max_address,
            size == settings.size,
            forall|k: int|
                0 <= k < regions@.len() ==> regions@[k].start_address <= regions@[k].end_address,
            spec_search_regions(full, min_address as int, max_address as int, size as int, g)
                == spec_search_regions(
                full.skip(i as int),
                min_address as int,
                max_address as int,
                size as int,
                g,
            ),
        decreases regions.len() - i,
    {
        proof {
            assert(full.skip(i as int)[0] == full[i as int]);
            assert(full.skip(i as int).skip(1) =~= full.skip(i as int + 1));
        }

        let region_start: usize = regions[i].start_address;
        let region_end: usize = regions[i].end_address;

        if region_start > max_address {
            return Err(
                BufferAllocationError::new(*settings, "Failed to allocate buffer"),
            );
        }

        let candidates = get_possible_buffer_addresses(
            min_address,
            max_address,
            region_start,
            region_end,
            size as usize,
            granularity,
        );

        let ghost cs = candidates@;
        let mut j: usize = 0;
        proof {
            assert(cs.skip(0) =~= cs);
        }
        while j < candidates.len()
            invariant
                j <= candidates.len(),
                cs == candidates@,
                spec_first_nonzero(cs) == spec_first_nonzero(cs.skip(j as int)),
                forall|k: int| 0 <= k < j ==> cs[k] == 0,
            decreases candidates.len() - j,
        {
            proof {
                assert(cs.skip(j as int)[0] == cs[j as int]);
                assert(cs.skip(j as int).skip(1) =~= cs.skip(j as int + 1));
            }
            let candidate: usize = candidates[j];
            if candidate != 0 {
                proof {
                    assert(spec_first_nonzero(cs.skip(j as int)) == Some(candidate));
                    assert(spec_search_regions(
                        full.skip(i as int),
                        min_address as int,
                        max_address as int,
                        size as int,
                        g,
                    ) == Some(candidate));
                    lemma_search_regions_props(
                        full,
                        min_address as int,
                        max_address as int,
                        size as int,
                        g,
                    );
                }
                return Ok(LocatorItem::new(candidate, size));
            }
            j = j + 1;
        }
        proof {
            assert(cs.skip(candidates@.len() as int) =~= Seq::<usize>::empty());
        }

        i = i + 1;
    }

    proof {
        assert(full.skip(regions@.len() as int) =~= Seq::<MemoryMapEntry>::empty());
    }
    Err(BufferAllocationError::new(*settings, "Failed to allocate buffer"))
}

} // verus!
