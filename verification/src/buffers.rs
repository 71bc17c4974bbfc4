//! The public driver over the locator chain: finding an existing buffer that
//! satisfies a search, allocating a new one when none does, growing the chain
//! when a header runs out of slots, and appending to a held buffer.

use vstd::prelude::*;

use crate::buffer_allocation_error::BufferAllocationError;
use crate::buffer_allocator::{allocate, spec_search_regions};
use crate::buffer_allocator_settings::{spec_sanitized_size, BufferAllocatorSettings};
use crate::buffer_search_error::BufferSearchError;
use crate::buffer_search_settings::{spec_with_size, BufferSearchSettings};
use crate::cached::Cached;
use crate::item_allocation_error::ItemAllocationError;
use crate::locator_header::{
    spec_chunk_count, spec_usable, LocatorHeader, LENGTH, MAX_ITEM_COUNT,
};
use crate::locator_item::{spec_with_taken, LocatorItem};
use crate::map_parser_utilities::MemoryMapEntry;
use crate::mathematics;
use crate::private_allocation::PrivateAllocation;
use crate::safe_locator_item::SafeLocatorItem;
use crate::wrappers::Unaligned;

verus! {

/// System parameters a locator chain can be run on: a positive granularity
/// of at least one header length, whose chunk never fills a header's item
/// table on its own.
pub open spec fn spec_sys_ok(sys: Cached) -> bool {
    &&& sys.wf()
    &&& sys.allocation_granularity as int >= LENGTH as int
    &&& spec_chunk_count(sys.allocation_granularity as int - LENGTH as int) < MAX_ITEM_COUNT
}

/// Where the search for a new buffer reservation of the sanitized size would
/// land, given the free regions.
pub open spec fn spec_buffer_search(
    sys: Cached,
    regions: Seq<MemoryMapEntry>,
    settings: BufferSearchSettings,
) -> Option<usize> {
    spec_search_regions(
        regions,
        settings.min_address as int,
        settings.max_address as int,
        spec_sanitized_size(settings.size, sys.allocation_granularity as int),
        sys.allocation_granularity as int,
    )
}

/// Where the reservation for one more chain link (one allocation-granularity
/// chunk anywhere in user space) would land, given the free regions.
pub open spec fn spec_grow_search(sys: Cached, regions: Seq<MemoryMapEntry>) -> Option<usize> {
    spec_search_regions(
        regions,
        0,
        sys.max_address as int,
        sys.allocation_granularity as int,
        sys.allocation_granularity as int,
    )
}

/// The locator chain of one process, with the system parameters it was
/// created under.
pub struct Buffers {
    pub headers: Vec<LocatorHeader>,
    pub sys: Cached,
}

impl Buffers {
    /// Every header is well formed and unlocked, and the next-locator
    /// pointers link each header to its successor, the last one to nothing.
    pub open spec fn wf(&self) -> bool {
        &&& spec_sys_ok(self.sys)
        &&& forall|h: int| 0 <= h < self.headers@.len() ==> (#[trigger] self.headers@[h]).wf()
        &&& forall|h: int|
            0 <= h < self.headers@.len() ==> !(#[trigger] self.headers@[h]).is_locked
        &&& forall|h: int|
            0 <= h < self.headers@.len() ==> ((#[trigger] self.headers@[h]).next_locator_ptr.value
                != 0 <==> h + 1 < self.headers@.len())
    }

    /// The handle names an item that exists in the chain.
    pub open spec fn spec_handle_valid(&self, handle: SafeLocatorItem) -> bool {
        &&& handle.header_index < self.headers@.len()
        &&& handle.item_index < self.headers@[handle.header_index as int].items@.len()
    }

    /// The item a handle names.
    pub open spec fn spec_handle_item(&self, handle: SafeLocatorItem) -> LocatorItem {
        self.headers@[handle.header_index as int].items@[handle.item_index as int]
    }

    /// An empty chain under the given system parameters; the first header is
    /// created by the first search that needs it.
    pub fn new(sys: Cached) -> (r: Buffers)
        requires
            spec_sys_ok(sys),
        ensures
            r.wf(),
            r.sys == sys,
            r.headers@.len() == 0,
    {
        Buffers { headers: Vec::new(), sys }
    }

    /// Links a reservation the embedder has already confirmed — one chunk of
    /// `length` bytes at `base` — as a new header at the end of the chain,
    /// initializing it in place. This is the commit half of growing the
    /// chain: the previous last header's next pointer makes its one
    /// transition from null to `base`, and nothing else changes.
    pub fn commit_chain_link(&mut self, base: usize, length: usize) -> (index: usize)
        requires
            old(self).wf(),
            base != 0,
            base + length <= usize::MAX,
            length >= LENGTH,
            spec_chunk_count(length - LENGTH) <= MAX_ITEM_COUNT,
        ensures
            final(self).wf(),
            final(self).sys == old(self).sys,
            index as int == old(self).headers@.len(),
            final(self).headers@.len() == old(self).headers@.len() + 1,
            final(self).headers@.last().this_address.value == base,
            final(self).headers@.last().next_locator_ptr.value == 0,
            !final(self).headers@.last().is_locked,
            final(self).headers@.last().items@ == crate::locator_header::spec_preallocated_items(
                base + LENGTH,
                length - LENGTH,
            ),
            final(self).headers@.last().num_items as int == spec_chunk_count(length - LENGTH),
            forall|h: int|
                0 <= h < old(self).headers@.len() ==> ({
                    &&& (#[trigger] final(self).headers@[h]).items@ == old(
                        self,
                    ).headers@[h].items@
                    &&& final(self).headers@[h].num_items == old(self).headers@[h].num_items
                    &&& final(self).headers@[h].this_address == old(self).headers@[h].this_address
                    &&& final(self).headers@[h].flags == old(self).headers@[h].flags
                }),
            forall|h: int|
                0 <= h < old(self).headers@.len() && h + 1 < old(self).headers@.len() ==> (
                #[trigger] final(self).headers@[h]).next_locator_ptr == old(
                    self,
                ).headers@[h].next_locator_ptr,
            old(self).headers@.len() > 0 ==> final(self).headers@[old(self).headers@.len()
                - 1].next_locator_ptr.value == base,
    {
        let mut new_header = LocatorHeader::new();
        new_header.initialize(base, length);

        let count: usize = self.headers.len();
        if count > 0 {
            let last = &mut self.headers[count - 1];
            last.next_locator_ptr = Unaligned::new(base);
        }
        self.headers.push(new_header);
        count
    }

    /// Reserves one allocation-granularity chunk, initializes it as a new
    /// header, and links it at the end of the chain. Returns whether a chunk
    /// could be reserved; nothing changes when it could not.
    #[verifier::loop_isolation(false)]
    fn grow_chain(&mut self, regions: &Vec<MemoryMapEntry>) -> (ok: bool)
        requires
            old(self).wf(),
            forall|k: int|
                0 <= k < regions@.len() ==> regions@[k].start_address <= regions@[k].end_address,
        ensures
            final(self).wf(),
            final(self).sys == old(self).sys,
            ok <==> spec_grow_search(old(self).sys, regions@) is Some,
            !ok ==> final(self).headers@ == old(self).headers@,
            ok ==> final(self).headers@.len() == old(self).headers@.len() + 1,
            ok ==> final(self).headers@.last().num_items < MAX_ITEM_COUNT,
            ok ==> forall|k: int|
                0 <= k < final(self).headers@.last().items@.len() ==> !(
                #[trigger] final(self).headers@.last().items@[k]).is_taken,
            forall|h: int|
                0 <= h < old(self).headers@.len() ==> (#[trigger] final(self).headers@[h]).items@
                    == old(self).headers@[h].items@,
            forall|h: int|
                0 <= h < old(self).headers@.len() ==> (#[trigger] final(self).headers@[h]).num_items
                    == old(self).headers@[h].num_items,
            forall|h: int|
                0 <= h < old(self).headers@.len() ==> (#[trigger] final(self).headers@[h]).this_address
                    == old(self).headers@[h].this_address,
            forall|h: int|
                0 <= h < old(self).headers@.len() ==> (#[trigger] final(self).headers@[h]).flags
                    == old(self).headers@[h].flags,
            forall|h: int|
                0 <= h < old(self).headers@.len() && h + 1 < old(self).headers@.len() ==> (
                #[trigger] final(self).headers@[h]).next_locator_ptr == old(
                    self,
                ).headers@[h].next_locator_ptr,
            forall|h: int|
                0 <= h < old(self).headers@.len() && old(self).headers@[h].next_locator_ptr.value
                    != 0 ==> (#[trigger] final(self).headers@[h]).next_locator_ptr == old(
                    self,
                ).headers@[h].next_locator_ptr,
    {
        let sys = self.sys;
        let granularity: u32 = sys.get_allocation_granularity() as u32;

        let mut settings = BufferAllocatorSettings::new(&sys);
        settings.min_address = 0;
        settings.max_address = sys.max_address;
        settings.size = granularity;

        proof {
            vstd::arithmetic::div_mod::lemma_mod_self_0(sys.allocation_granularity as int);
            assert(spec_sanitized_size(granularity, sys.allocation_granularity as int)
                == granularity as int);
        }

        let result = allocate(&mut settings, &sys, regions);

        match result {
            Ok(item) => {
                let base: usize = item.base_address.value;
                let length: usize = item.size as usize;
                self.commit_chain_link(base, length);
                true
            },
            Err(_) => false,
        }
    }

    /// Gets a buffer with user specified requirements, searching the chain
    /// for an item with enough bytes left inside the window, allocating a
    /// new item from the free regions when none is found, and growing the
    /// chain when the last header has no slot left.
    ///
    /// The returned handle names an item that was free and is now locked;
    /// its writable span lies inside `[min_address, max_address]` and holds
    /// at least `size` bytes.
    #[verifier::loop_isolation(false)]
    #[verifier::rlimit(100)]
    pub fn get_buffer(
        &mut self,
        settings: &BufferSearchSettings,
        regions: &Vec<MemoryMapEntry>,
    ) -> (r: Result<SafeLocatorItem, BufferSearchError>)
        requires
            old(self).wf(),
            spec_sanitized_size(settings.size, old(self).sys.allocation_granularity as int)
                <= u32::MAX,
            forall|k: int|
                0 <= k < regions@.len() ==> regions@[k].start_address <= regions@[k].end_address,
        ensures
            final(self).wf(),
            final(self).sys == old(self).sys,
            final(self).headers@.len() >= old(self).headers@.len(),
            forall|h: int|
                0 <= h < old(self).headers@.len() ==> (#[trigger] final(self).headers@[h]).items@
                    .len() >= old(self).headers@[h].items@.len(),
            forall|h: int|
                0 <= h < old(self).headers@.len() ==> (#[trigger] final(self).headers@[h]).this_address
                    == old(self).headers@[h].this_address,
            forall|h: int|
                0 <= h < old(self).headers@.len() ==> (#[trigger] final(self).headers@[h]).flags
                    == old(self).headers@[h].flags,
            forall|h: int|
                0 <= h < old(self).headers@.len() && h + 1 < old(self).headers@.len() ==> (
                #[trigger] final(self).headers@[h]).next_locator_ptr == old(
                    self,
                ).headers@[h].next_locator_ptr,
            forall|h: int|
                0 <= h < old(self).headers@.len() && old(self).headers@[h].next_locator_ptr.value
                    != 0 ==> (#[trigger] final(self).headers@[h]).next_locator_ptr == old(
                    self,
                ).headers@[h].next_locator_ptr,
            match r {
                Ok(handle) => ({
                    let item = final(self).spec_handle_item(handle);
                    &&& final(self).spec_handle_valid(handle)
                    &&& item.is_taken
                    &&& item.wf()
                    &&& item.base_address.value != 0
                    &&& item.base_address.value + item.position >= settings.min_address
                    &&& item.base_address.value + item.size <= settings.max_address
                    &&& item.size - item.position >= settings.size
                    &&& (old(self).spec_handle_valid(handle) ==> !old(self).spec_handle_item(
                        handle,
                    ).is_taken && item == spec_with_taken(old(self).spec_handle_item(handle), true))
                    &&& forall|h: int, k: int|
                        0 <= h < old(self).headers@.len() && 0 <= k < old(
                            self,
                        ).headers@[h].items@.len() && !(h == handle.header_index && k
                            == handle.item_index) ==> (#[trigger] final(self).headers@[h].items@[k])
                            == old(self).headers@[h].items@[k]
                }),
                Err(e) => {
                    &&& e.settings == *settings
                    &&& forall|h: int, k: int|
                        0 <= h < old(self).headers@.len() && 0 <= k < old(
                            self,
                        ).headers@[h].items@.len() ==> (#[trigger] final(self).headers@[h].items@[k])
                            == old(self).headers@[h].items@[k]
                    &&& !(spec_buffer_search(old(self).sys, regions@, *settings) is Some
                        && spec_grow_search(old(self).sys, regions@) is Some)
                    &&& (e.text@ == "Could not allocate memory"@ || e.text@
                        == "Failed to allocate memory for LocatorHeader. Is this process out of memory?"@)
                    &&& e.text@ == "Could not allocate memory"@ ==> spec_buffer_search(
                        old(self).sys,
                        regions@,
                        *settings,
                    ) is None
                    &&& e.text@
                        == "Failed to allocate memory for LocatorHeader. Is this process out of memory?"@
                        ==> spec_grow_search(old(self).sys, regions@) is None
                },
            },
            (spec_buffer_search(old(self).sys, regions@, *settings) is Some && spec_grow_search(
                old(self).sys,
                regions@,
            ) is Some) ==> r is Ok,
            (old(self).headers@.len() > 0 && (exists|k: int|
                0 <= k < old(self).headers@[0].items@.len() && spec_usable(
                    old(self).headers@[0].items@,
                    settings.size,
                    settings.min_address,
                    settings.max_address,
                    k,
                ))) ==> r is Ok,
    {
        let ghost pre = *old(self);
        let sys = self.sys;
        let size: u32 = settings.size;
        let min_address: usize = settings.min_address;
        let max_address: usize = settings.max_address;

        let mut flag: u8 = 1;
        if self.headers.len() == 0 {
            let ok = self.grow_chain(regions);
            if !ok {
                proof {
                    reveal_strlit("Could not allocate memory");
                    reveal_strlit(
                        "Failed to allocate memory for LocatorHeader. Is this process out of memory?",
                    );
                    assert("Could not allocate memory"@.len() != "Failed to allocate memory for LocatorHeader. Is this process out of memory?"@.len());
                }
                return Err(
                    BufferSearchError::new(
                        *settings,
                        "Failed to allocate memory for LocatorHeader. Is this process out of memory?",
                    ),
                );
            }
            flag = 0;
        }

        let mut i: usize = 0;

        loop
            invariant
                self.wf(),
                self.sys == pre.sys,
                i < self.headers@.len(),
                self.headers@.len() >= pre.headers@.len(),
                flag == 0 || flag == 1,
                forall|h: int|
                    0 <= h < pre.headers@.len() ==> (#[trigger] self.headers@[h]).items@.len()
                        >= pre.headers@[h].items@.len(),
                forall|h: int, k: int|
                    0 <= h < pre.headers@.len() && 0 <= k < pre.headers@[h].items@.len() ==> (
                    #[trigger] self.headers@[h].items@[k]) == pre.headers@[h].items@[k],
                forall|h: int|
                    0 <= h < pre.headers@.len() ==> (#[trigger] self.headers@[h]).this_address
                        == pre.headers@[h].this_address,
                forall|h: int|
                    0 <= h < pre.headers@.len() ==> (#[trigger] self.headers@[h]).flags
                        == pre.headers@[h].flags,
                forall|h: int|
                    0 <= h < pre.headers@.len() && h + 1 < pre.headers@.len() ==> (
                    #[trigger] self.headers@[h]).next_locator_ptr
                        == pre.headers@[h].next_locator_ptr,
                forall|h: int|
                    0 <= h < pre.headers@.len() && pre.headers@[h].next_locator_ptr.value != 0
                        ==> (#[trigger] self.headers@[h]).next_locator_ptr
                        == pre.headers@[h].next_locator_ptr,
                forall|h: int, k: int|
                    0 <= h < i && 0 <= k < self.headers@[h].items@.len() ==> !(
                    #[trigger] spec_usable(
                        self.headers@[h].items@,
                        size,
                        min_address,
                        max_address,
                        k,
                    )),
                flag == 0 ==> i as int == self.headers@.len() - 1
                    && self.headers@[i as int].num_items < MAX_ITEM_COUNT,
                flag == 0 ==> spec_grow_search(pre.sys, regions@) is Some,
            decreases self.headers@.len() - i, flag,
        {
            let found = {
                let header = &mut self.headers[i];
                header.get_first_available_item_locked(size, min_address, max_address)
            };
            match found {
                Some(j) => {
                    return Ok(SafeLocatorItem { header_index: i, item_index: j });
                },
                None => {},
            }

            // Nothing in the first header can serve this request: the first
            // iteration just scanned it, and later ones know it from the
            // prefix invariant.
            proof {
                if pre.headers@.len() > 0 {
                    assert forall|k: int|
                        0 <= k < pre.headers@[0].items@.len() implies !spec_usable(
                        pre.headers@[0].items@,
                        size,
                        min_address,
                        max_address,
                        k,
                    ) by {
                        assert(self.headers@[0].items@[k] == pre.headers@[0].items@[k]);
                        assert(!spec_usable(
                            self.headers@[0].items@,
                            size,
                            min_address,
                            max_address,
                            k,
                        ));
                    }
                }
            }

            let alloc_result = {
                let header = &mut self.headers[i];
                header.try_allocate_item(size, min_address, max_address, &sys, regions)
            };
            match alloc_result {
                Ok(j) => {
                    return Ok(SafeLocatorItem { header_index: i, item_index: j });
                },
                Err(error) => {
                    if error == ItemAllocationError::CannotAllocateMemory {
                        proof {
                            reveal_strlit("Could not allocate memory");
                            reveal_strlit(
                                "Failed to allocate memory for LocatorHeader. Is this process out of memory?",
                            );
                            assert("Could not allocate memory"@.len() != "Failed to allocate memory for LocatorHeader. Is this process out of memory?"@.len());
                        }
                        return Err(BufferSearchError::new(*settings, error.as_string()));
                    }
                    // No space in this header: advance, growing the chain at
                    // its end.
                    let n = self.headers.len();
                    if i + 1 < n {
                        i = i + 1;
                    } else if flag != 0 {
                        let ok = self.grow_chain(regions);
                        if !ok {
                            proof {
                                reveal_strlit("Could not allocate memory");
                                reveal_strlit(
                                    "Failed to allocate memory for LocatorHeader. Is this process out of memory?",
                                );
                                assert("Could not allocate memory"@.len() != "Failed to allocate memory for LocatorHeader. Is this process out of memory?"@.len());
                            }
                            return Err(
                                BufferSearchError::new(
                                    *settings,
                                    "Failed to allocate memory for LocatorHeader. Is this process out of memory?",
                                ),
                            );
                        }
                        i = i + 1;
                        flag = 0;
                    } else {
                        // A freshly grown header has free slots, so the
                        // no-space answer cannot arrive here.
                        proof {
                            assert(false);
                        }
                        return Err(BufferSearchError::new(*settings, error.as_string()));
                    }
                },
            }
        }
    }

    /// Gets a buffer with user specified requirements and provided
    /// alignment.
    ///
    /// The search asks for `size + alignment` bytes and then moves the found
    /// item's base address up to the next multiple of the alignment, so the
    /// aligned window still holds the requested size. Buffers that would
    /// only fit with the alignment applied during the search itself are
    /// missed; this mirrors the search being alignment-unaware.
    ///
    /// Because the base moves up by as much as the alignment, the window
    /// must end at least one maximal alignment below the last representable
    /// address, so the shifted item still describes real address space.
    #[verifier::rlimit(60)]
    pub fn get_buffer_aligned(
        &mut self,
        settings: &BufferSearchSettings,
        alignment: u32,
        regions: &Vec<MemoryMapEntry>,
    ) -> (r: Result<SafeLocatorItem, BufferSearchError>)
        requires
            old(self).wf(),
            1 <= alignment <= 4096,
            settings.size + alignment <= u32::MAX,
            settings.max_address <= usize::MAX - 4096,
            spec_sanitized_size(
                (settings.size + alignment) as u32,
                old(self).sys.allocation_granularity as int,
            ) <= u32::MAX,
            forall|k: int|
                0 <= k < regions@.len() ==> regions@[k].start_address <= regions@[k].end_address,
        ensures
            final(self).wf(),
            final(self).sys == old(self).sys,
            final(self).headers@.len() >= old(self).headers@.len(),
            r matches Ok(handle) ==> {
                &&& final(self).spec_handle_valid(handle)
                &&& final(self).spec_handle_item(handle).is_taken
                &&& final(self).spec_handle_item(handle).wf()
                &&& final(self).spec_handle_item(handle).base_address.value as int % (
                alignment as int) == 0
                &&& final(self).spec_handle_item(handle).size - final(self).spec_handle_item(
                    handle,
                ).position >= settings.size
            },
            r matches Err(e) ==> {
                &&& e.settings.min_address == settings.min_address
                &&& e.settings.max_address == settings.max_address
                &&& e.settings.size == settings.size + alignment
            },
            forall|h: int|
                0 <= h < old(self).headers@.len() ==> (#[trigger] final(self).headers@[h]).this_address
                    == old(self).headers@[h].this_address,
            forall|h: int|
                0 <= h < old(self).headers@.len() ==> (#[trigger] final(self).headers@[h]).flags
                    == old(self).headers@[h].flags,
            forall|h: int|
                0 <= h < old(self).headers@.len() && h + 1 < old(self).headers@.len() ==> (
                #[trigger] final(self).headers@[h]).next_locator_ptr == old(
                    self,
                ).headers@[h].next_locator_ptr,
            forall|h: int|
                0 <= h < old(self).headers@.len() && old(self).headers@[h].next_locator_ptr.value
                    != 0 ==> (#[trigger] final(self).headers@[h]).next_locator_ptr == old(
                    self,
                ).headers@[h].next_locator_ptr,
            (spec_buffer_search(
                old(self).sys,
                regions@,
                spec_with_size(*settings, (settings.size + alignment) as u32),
            ) is Some && spec_grow_search(old(self).sys, regions@) is Some) ==> r is Ok,
            (old(self).headers@.len() > 0 && (exists|k: int|
                0 <= k < old(self).headers@[0].items@.len() && #[trigger] spec_usable(
                    old(self).headers@[0].items@,
                    (settings.size + alignment) as u32,
                    settings.min_address,
                    settings.max_address,
                    k,
                ))) ==> r is Ok,
    {
        let mut new_settings = *settings;
        new_settings.size = new_settings.size + alignment;
        proof {
            assert(new_settings == spec_with_size(*settings, (settings.size + alignment) as u32));
        }

        let result = self.get_buffer(&new_settings, regions);

        match result {
            Ok(handle) => {
                let ghost pre = *self;
                let hi = handle.header_index;
                let ki = handle.item_index;
                let header = &mut self.headers[hi];
                let item = &mut header.items[ki];
                let base: usize = item.base_address.value;
                let aligned: usize = mathematics::round_up(base, alignment as usize);
                item.base_address = Unaligned::new(aligned);
                proof {
                    assert forall|h: int|
                        0 <= h < self.headers@.len() implies (#[trigger] self.headers@[h]).wf()
                        by {
                        if h == hi as int {
                            assert(self.headers@[h].items@ == pre.headers@[h].items@.update(
                                ki as int,
                                self.headers@[h].items@[ki as int],
                            ));
                        }
                    }
                }
                Ok(handle)
            },
            Err(e) => Err(e),
        }
    }

    /// Appends the data to the buffer a handle holds and returns the address
    /// of the written data: the item's base plus its position before the
    /// call. The position advances by the data's length. The bytes
    /// themselves are copied to that address by the embedder.
    pub fn append_bytes(&mut self, handle: &SafeLocatorItem, data: &[u8]) -> (address: usize)
        requires
            old(self).wf(),
            old(self).spec_handle_valid(*handle),
            old(self).spec_handle_item(*handle).position + data@.len() <= old(self).spec_handle_item(*handle).size,
        ensures
            final(self).wf(),
            final(self).sys == old(self).sys,
            final(self).headers@.len() == old(self).headers@.len(),
            address == old(self).spec_handle_item(*handle).base_address.value + old(self).spec_handle_item(*handle).position,
            final(self).spec_handle_item(*handle).position == old(self).spec_handle_item(
                *handle,
            ).position + data@.len(),
            final(self).spec_handle_item(*handle).base_address == old(self).spec_handle_item(
                *handle,
            ).base_address,
            final(self).spec_handle_item(*handle).size == old(self).spec_handle_item(
                *handle,
            ).size,
            final(self).spec_handle_item(*handle).is_taken == old(self).spec_handle_item(
                *handle,
            ).is_taken,
            forall|h: int|
                0 <= h < old(self).headers@.len() ==> {
                    &&& (#[trigger] final(self).headers@[h]).this_address == old(
                        self,
                    ).headers@[h].this_address
                    &&& final(self).headers@[h].flags == old(self).headers@[h].flags
                    &&& final(self).headers@[h].next_locator_ptr == old(
                        self,
                    ).headers@[h].next_locator_ptr
                    &&& final(self).headers@[h].num_items == old(self).headers@[h].num_items
                    &&& final(self).headers@[h].items@.len() == old(self).headers@[h].items@.len()
                },
            forall|h: int, k: int|
                0 <= h < old(self).headers@.len() && 0 <= k < old(self).headers@[h].items@.len()
                    && !(h == handle.header_index && k == handle.item_index) ==> (#[trigger] final(self).headers@[h].items@[k]) == old(self).headers@[h].items@[k],
    {
        let ghost pre = *old(self);
        let hi = handle.header_index;
        let ki = handle.item_index;
        let header = &mut self.headers[hi];
        let item = &mut header.items[ki];
        let address = item.append_bytes(data);
        proof {
            assert forall|h: int|
                0 <= h < self.headers@.len() implies (#[trigger] self.headers@[h]).wf() by {
                if h == hi as int {
                    assert(self.headers@[h].items@ == pre.headers@[h].items@.update(
                        ki as int,
                        self.headers@[h].items@[ki as int],
                    ));
                }
            }
        }
        address
    }

    /// Releases the lock the handle holds, consuming the handle. The item's
    /// contents stay as they are; only the lock flag clears.
    pub fn release_item(&mut self, handle: SafeLocatorItem)
        requires
            old(self).wf(),
            old(self).spec_handle_valid(handle),
        ensures
            final(self).wf(),
            final(self).sys == old(self).sys,
            final(self).headers@.len() == old(self).headers@.len(),
            final(self).spec_handle_item(handle) == spec_with_taken(
                old(self).spec_handle_item(handle),
                false,
            ),
            forall|h: int|
                0 <= h < old(self).headers@.len() ==> {
                    &&& (#[trigger] final(self).headers@[h]).this_address == old(
                        self,
                    ).headers@[h].this_address
                    &&& final(self).headers@[h].flags == old(self).headers@[h].flags
                    &&& final(self).headers@[h].next_locator_ptr == old(
                        self,
                    ).headers@[h].next_locator_ptr
                    &&& final(self).headers@[h].num_items == old(self).headers@[h].num_items
                    &&& final(self).headers@[h].items@.len() == old(self).headers@[h].items@.len()
                },
            forall|h: int, k: int|
                0 <= h < old(self).headers@.len() && 0 <= k < old(self).headers@[h].items@.len()
                    && !(h == handle.header_index && k == handle.item_index) ==> (#[trigger] final(self).headers@[h].items@[k]) == old(self).headers@[h].items@[k],
    {
        let ghost pre = *old(self);
        let hi = handle.header_index;
        let ki = handle.item_index;
        let header = &mut self.headers[hi];
        let item = &mut header.items[ki];
        item.unlock();
        proof {
            assert forall|h: int|
                0 <= h < self.headers@.len() implies (#[trigger] self.headers@[h]).wf() by {
                if h == hi as int {
                    assert(self.headers@[h].items@ == pre.headers@[h].items@.update(
                        ki as int,
                        self.headers@[h].items@[ki as int],
                    ));
                }
            }
        }
    }

    /// Allocates some memory with user specified settings, for the caller's
    /// use only: the allocation search runs over the given free regions and
    /// the reservation it settles on is described as a private allocation.
    pub fn allocate_private_memory(
        settings: &mut BufferAllocatorSettings,
        sys: &Cached,
        regions: &Vec<MemoryMapEntry>,
    ) -> (r: Result<PrivateAllocation, BufferAllocationError>)
        requires
            sys.wf(),
            spec_sanitized_size(old(settings).size, sys.allocation_granularity as int)
                <= u32::MAX,
            forall|k: int|
                0 <= k < regions@.len() ==> regions@[k].start_address <= regions@[k].end_address,
        ensures
            final(settings).min_address == old(settings).min_address,
            final(settings).max_address == old(settings).max_address,
            final(settings).target_process_id == old(settings).target_process_id,
            final(settings).retry_count == old(settings).retry_count,
            final(settings).brute_force == old(settings).brute_force,
            final(settings).size == spec_sanitized_size(
                old(settings).size,
                sys.allocation_granularity as int,
            ),
            r is Ok <==> spec_search_regions(
                regions@,
                old(settings).min_address as int,
                old(settings).max_address as int,
                spec_sanitized_size(old(settings).size, sys.allocation_granularity as int),
                sys.allocation_granularity as int,
            ) is Some,
            r matches Ok(alloc) ==> {
                &&& alloc.base_address != 0
                &&& alloc.base_address >= final(settings).min_address
                &&& alloc.base_address + alloc.size <= final(settings).max_address
                &&& alloc.size == final(settings).size
                &&& alloc.size >= old(settings).size
                &&& alloc.this_process_id == final(settings).target_process_id
            },
            r matches Err(e) ==> e.settings == *final(settings),
    {
        let result = allocate(settings, sys, regions);
        match result {
            Ok(item) => Ok(
                PrivateAllocation::new(
                    item.base_address.value,
                    item.size as usize,
                    settings.target_process_id,
                ),
            ),
            Err(e) => Err(e),
        }
    }
}

/// Two handles held at the same time name distinct items: one that a search
/// hands out was free at the time, while one already held is locked, so the
/// same item cannot stand behind both.
pub proof fn lemma_live_handles_distinct(mid: Buffers, h1: SafeLocatorItem, h2: SafeLocatorItem)
    requires
        mid.spec_handle_valid(h1),
        mid.spec_handle_item(h1).is_taken,
        mid.spec_handle_valid(h2) ==> !mid.spec_handle_item(h2).is_taken,
    ensures
        h1.header_index != h2.header_index || h1.item_index != h2.item_index,
{
}

} // verus!
