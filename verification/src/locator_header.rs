//! The header of an individual memory locator: a fixed 4096-byte wire format
//! holding a table of locator items, a lock, and a link to the next header.
//!
//! The header always lives at the start of one allocation-granularity chunk;
//! the bytes of the chunk past the first 4096 are carved into preallocated
//! buffers of at most 16 KiB each, registered as items up front.

use vstd::prelude::*;

use crate::buffer_allocator::{allocate, spec_search_regions};
use crate::buffer_allocator_settings::{spec_sanitized_size, BufferAllocatorSettings};
use crate::cached::Cached;
use crate::item_allocation_error::ItemAllocationError;
use crate::locator_item::{spec_with_taken, LocatorItem};
use crate::map_parser_utilities::MemoryMapEntry;
use crate::mathematics;
use crate::wrappers::Unaligned;

verus! {

/// Static length of this locator's wire format, header prefix and item table
/// together.
pub const LENGTH: usize = 4096;

/// Length of buffers preallocated in this locator from the remainder of its
/// allocation-granularity chunk.
pub const LENGTH_OF_PREALLOCATED_CHUNKS: u32 = 16384;

/// Bytes of the header prefix in the wire format (pointer-width fields stored
/// as eight bytes each, then the lock word, two flag bytes and two bytes of
/// padding).
pub const HEADER_PREFIX_BYTES: usize = 24;

/// Bytes of one locator item in the wire format.
pub const LOCATOR_ITEM_BYTES: usize = 20;

/// The maximum possible amount of items in this locator.
pub const MAX_ITEM_COUNT: u32 = ((LENGTH - HEADER_PREFIX_BYTES) / LOCATOR_ITEM_BYTES) as u32;

/// Represents the header of an individual memory locator.
///
/// `items` models the initialized prefix of the inline item table that
/// follows the header prefix in the wire format; `num_items` counts it.
pub struct LocatorHeader {
    pub this_address: Unaligned<usize>,
    pub next_locator_ptr: Unaligned<usize>,
    pub is_locked: bool,
    pub flags: u8,
    pub num_items: u8,
    pub items: Vec<LocatorItem>,
}

/// How many preallocated buffers a remainder of `total` bytes is carved
/// into: full 16 KiB chunks, plus one for what is left over.
pub open spec fn spec_chunk_count(total: int) -> int {
    (total + (LENGTH_OF_PREALLOCATED_CHUNKS - 1)) / (LENGTH_OF_PREALLOCATED_CHUNKS as int)
}

/// The preallocated items that carve `total` bytes starting at `base` into
/// chunks of at most 16 KiB: the k-th starts `k` chunks past `base` and runs
/// to the next chunk boundary or the end of the remainder.
pub open spec fn spec_preallocated_items(base: int, total: int) -> Seq<LocatorItem> {
    Seq::new(
        spec_chunk_count(total) as nat,
        |k: int|
            LocatorItem {
                base_address: Unaligned {
                    value: (base + k * LENGTH_OF_PREALLOCATED_CHUNKS) as usize,
                },
                size: (if total - k * LENGTH_OF_PREALLOCATED_CHUNKS
                    >= LENGTH_OF_PREALLOCATED_CHUNKS {
                    LENGTH_OF_PREALLOCATED_CHUNKS as int
                } else {
                    total - k * LENGTH_OF_PREALLOCATED_CHUNKS
                }) as u32,
                position: 0,
                is_taken: false,
            },
    )
}

/// Whether item `k` of the table can serve a request: usable for the
/// constraints and not held by any writer.
pub open spec fn spec_usable(
    items: Seq<LocatorItem>,
    size: u32,
    min_address: usize,
    max_address: usize,
    k: int,
) -> bool {
    items[k].spec_can_use(size, min_address, max_address) && !items[k].is_taken
}

impl LocatorHeader {
    /// The item count fits the inline table and every item is well formed.
    pub open spec fn wf(&self) -> bool {
        &&& self.num_items as int == self.items@.len()
        &&& self.items@.len() <= MAX_ITEM_COUNT
        &&& forall|k: int| 0 <= k < self.items@.len() ==> (#[trigger] self.items@[k]).wf()
    }

    /// Creates a new LocatorHeader instance with no items and no neighbour.
    pub fn new() -> (r: Self)
        ensures
            r.this_address.value == 0,
            r.next_locator_ptr.value == 0,
            !r.is_locked,
            r.flags == 0,
            r.num_items == 0,
            r.items@.len() == 0,
            r.wf(),
    {
        LocatorHeader {
            this_address: Unaligned::new(0),
            next_locator_ptr: Unaligned::new(0),
            is_locked: false,
            flags: 0,
            num_items: 0,
            items: Vec::new(),
        }
    }

    /// Resets every header field for a header living at `this_address`,
    /// leaving the item table empty.
    pub fn set_default_values(&mut self, this_address: usize)
        ensures
            final(self).this_address.value == this_address,
            final(self).next_locator_ptr.value == 0,
            !final(self).is_locked,
            final(self).flags == 0,
            final(self).num_items == 0,
            final(self).items@.len() == 0,
            final(self).wf(),
    {
        self.this_address = Unaligned::new(this_address);
        self.next_locator_ptr = Unaligned::new(0);
        self.is_locked = false;
        self.flags = 0;
        self.num_items = 0;
        self.items = Vec::new();
    }

    /// Initializes the locator header values for a header placed at
    /// `this_address` inside a fresh chunk of `length` bytes: the bytes past
    /// the header's 4096 become preallocated buffers.
    pub fn initialize(&mut self, this_address: usize, length: usize)
        requires
            length >= LENGTH,
            this_address + length <= usize::MAX,
            spec_chunk_count(length - LENGTH) <= MAX_ITEM_COUNT,
        ensures
            final(self).this_address.value == this_address,
            final(self).next_locator_ptr.value == 0,
            !final(self).is_locked,
            final(self).flags == 0,
            final(self).items@ == spec_preallocated_items(
                this_address + LENGTH,
                length - LENGTH,
            ),
            final(self).num_items as int == spec_chunk_count(length - LENGTH),
            final(self).wf(),
    {
        self.set_default_values(this_address);
        let remaining_bytes: u32 = (length - LENGTH) as u32;
        self.initialize_remaining_space_as_buffers(remaining_bytes);
    }

    /// Carves `remaining_bytes` bytes that follow the header's 4096 into
    /// preallocated items of at most 16 KiB each.
    #[verifier::loop_isolation(false)]
    fn initialize_remaining_space_as_buffers(&mut self, remaining_bytes: u32)
        requires
            old(self).items@.len() == 0,
            old(self).num_items == 0,
            old(self).this_address.value + LENGTH + remaining_bytes <= usize::MAX,
            spec_chunk_count(remaining_bytes as int) <= MAX_ITEM_COUNT,
        ensures
            final(self).items@ == spec_preallocated_items(
                old(self).this_address.value + LENGTH,
                remaining_bytes as int,
            ),
            final(self).num_items as int == spec_chunk_count(remaining_bytes as int),
            final(self).this_address == old(self).this_address,
            final(self).next_locator_ptr == old(self).next_locator_ptr,
            final(self).is_locked == old(self).is_locked,
            final(self).flags == old(self).flags,
            final(self).wf(),
    {
        let ghost base = old(self).this_address.value + LENGTH;
        let ghost total = remaining_bytes as int;
        let ghost target = spec_preallocated_items(base, total);

        let mut num_items: u8 = 0;
        let mut buffer_address: usize = self.this_address.value + LENGTH;
        let mut remaining: u32 = remaining_bytes;

        proof {
            assert(self.items@ =~= target.take(0));
        }

        while remaining > 0
            invariant
                self.this_address == old(self).this_address,
                self.next_locator_ptr == old(self).next_locator_ptr,
                self.is_locked == old(self).is_locked,
                self.flags == old(self).flags,
                self.num_items == old(self).num_items,
                num_items as int <= spec_chunk_count(total),
                remaining as int == if total - num_items as int
                    * LENGTH_OF_PREALLOCATED_CHUNKS >= 0 {
                    total - num_items as int * LENGTH_OF_PREALLOCATED_CHUNKS
                } else {
                    0
                },
                remaining > 0 ==> buffer_address as int == base + num_items as int
                    * LENGTH_OF_PREALLOCATED_CHUNKS,
                remaining == 0 ==> num_items as int == spec_chunk_count(total),
                self.items@ == target.take(num_items as int),
                base + total <= usize::MAX,
                total == remaining_bytes as int,
                target == spec_preallocated_items(base, total),
            decreases remaining,
        {
            let this_length: u32 = mathematics::min(
                LENGTH_OF_PREALLOCATED_CHUNKS as usize,
                remaining as usize,
            ) as u32;
            proof {
                let chunk = LENGTH_OF_PREALLOCATED_CHUNKS as int;
                let p = num_items as int;
                assert(total >= p * chunk + 1);
                vstd::arithmetic::div_mod::lemma_div_multiples_vanish(p + 1, chunk);
                vstd::arithmetic::div_mod::lemma_div_is_ordered(
                    (p + 1) * chunk,
                    total + chunk - 1,
                    chunk,
                );
                assert(p + 1 <= spec_chunk_count(total));
                if remaining <= LENGTH_OF_PREALLOCATED_CHUNKS {
                    // This chunk is the last one: the count comes out exact.
                    if remaining == LENGTH_OF_PREALLOCATED_CHUNKS {
                        vstd::arithmetic::div_mod::lemma_fundamental_div_mod_converse_div(
                            total + chunk - 1,
                            chunk,
                            p + 1,
                            chunk - 1,
                        );
                    } else {
                        vstd::arithmetic::div_mod::lemma_fundamental_div_mod_converse_div(
                            total + chunk - 1,
                            chunk,
                            p + 1,
                            remaining as int - 1,
                        );
                    }
                }
                assert(target[num_items as int] == LocatorItem {
                    base_address: Unaligned { value: buffer_address },
                    size: this_length,
                    position: 0,
                    is_taken: false,
                });
            }
            self.items.push(LocatorItem::new(buffer_address, this_length));
            proof {
                assert(self.items@ =~= target.take(num_items as int + 1));
            }
            buffer_address = buffer_address + this_length as usize;
            remaining = remaining - this_length;
            num_items = num_items + 1;
        }

        proof {
            assert(self.items@ =~= target);
        }
        self.num_items = num_items;
    }

    /// Returns the version represented by the first 3 bits of `flags`.
    pub fn version(&self) -> (r: u8)
        ensures
            r == self.flags & 0x07,
    {
        self.flags & 0x07
    }

    /// Sets the version represented by the first 3 bits of `flags`.
    pub fn set_version(&mut self, value: u8)
        ensures
            final(self).flags == (old(self).flags & 0xF8) | (value & 0x07),
            final(self).this_address == old(self).this_address,
            final(self).next_locator_ptr == old(self).next_locator_ptr,
            final(self).is_locked == old(self).is_locked,
            final(self).num_items == old(self).num_items,
            final(self).items@ == old(self).items@,
    {
        self.flags = (self.flags & 0xF8) | (value & 0x07);
    }

    /// Returns true if next locator is present.
    pub fn has_next_locator(&self) -> (r: bool)
        ensures
            r == (self.next_locator_ptr.value != 0),
    {
        self.next_locator_ptr.value != 0
    }

    /// Returns true if this locator's item table is full.
    pub fn is_full(&self) -> (r: bool)
        ensures
            r == (self.num_items >= MAX_ITEM_COUNT),
    {
        self.num_items as usize >= MAX_ITEM_COUNT as usize
    }

    /// Tries to acquire the lock.
    ///
    /// Returns true if the lock was successfully acquired, false otherwise.
    pub fn try_lock(&mut self) -> (r: bool)
        ensures
            final(self).is_locked,
            r == !old(self).is_locked,
            final(self).this_address == old(self).this_address,
            final(self).next_locator_ptr == old(self).next_locator_ptr,
            final(self).flags == old(self).flags,
            final(self).num_items == old(self).num_items,
            final(self).items@ == old(self).items@,
    {
        let was_locked = self.is_locked;
        self.is_locked = true;
        !was_locked
    }

    /// Acquires the lock.
    ///
    /// The header is held exclusively while this runs, so nobody else could
    /// release the lock meanwhile: acquiring demands that the lock is free.
    pub fn lock(&mut self)
        requires
            !old(self).is_locked,
        ensures
            final(self).is_locked,
            final(self).this_address == old(self).this_address,
            final(self).next_locator_ptr == old(self).next_locator_ptr,
            final(self).flags == old(self).flags,
            final(self).num_items == old(self).num_items,
            final(self).items@ == old(self).items@,
    {
        self.is_locked = true;
    }

    /// Unlocks the header.
    ///
    /// Releasing a lock that is not held is a caller error, so the lock must
    /// be held.
    pub fn unlock(&mut self)
        requires
            old(self).is_locked,
        ensures
            !final(self).is_locked,
            final(self).this_address == old(self).this_address,
            final(self).next_locator_ptr == old(self).next_locator_ptr,
            final(self).flags == old(self).flags,
            final(self).num_items == old(self).num_items,
            final(self).items@ == old(self).items@,
    {
        self.is_locked = false;
    }

    /// Gets the first item.
    pub fn get_first_item(&self) -> (r: &LocatorItem)
        requires
            self.items@.len() > 0,
        ensures
            *r == self.items@[0],
    {
        &self.items[0]
    }

    /// Gets the item at a specific index.
    pub fn get_item(&self, index: usize) -> (r: &LocatorItem)
        requires
            index < self.items@.len(),
        ensures
            *r == self.items@[index as int],
    {
        &self.items[index]
    }

    /// Finds the first item that can serve the request and is not held by a
    /// writer, acquires its lock and returns its index.
    pub fn get_first_available_item_locked(
        &mut self,
        size: u32,
        min_address: usize,
        max_address: usize,
    ) -> (r: Option<usize>)
        requires
            old(self).wf(),
        ensures
            final(self).wf(),
            final(self).this_address == old(self).this_address,
            final(self).next_locator_ptr == old(self).next_locator_ptr,
            final(self).is_locked == old(self).is_locked,
            final(self).flags == old(self).flags,
            final(self).num_items == old(self).num_items,
            match r {
                Some(j) => {
                    &&& 0 <= j < old(self).items@.len()
                    &&& spec_usable(old(self).items@, size, min_address, max_address, j as int)
                    &&& forall|k: int|
                        0 <= k < j ==> !spec_usable(
                            old(self).items@,
                            size,
                            min_address,
                            max_address,
                            k,
                        )
                    &&& final(self).items@ == old(self).items@.update(
                        j as int,
                        spec_with_taken(old(self).items@[j as int], true),
                    )
                },
                None => {
                    &&& final(self).items@ == old(self).items@
                    &&& forall|k: int|
                        0 <= k < old(self).items@.len() ==> !spec_usable(
                            old(self).items@,
                            size,
                            min_address,
                            max_address,
                            k,
                        )
                },
            },
    {
        let mut current: usize = 0;
        let count: usize = self.items.len();

        while current < count
            invariant
                count == self.items@.len(),
                current <= count,
                self.wf(),
                self.this_address == old(self).this_address,
                self.next_locator_ptr == old(self).next_locator_ptr,
                self.is_locked == old(self).is_locked,
                self.flags == old(self).flags,
                self.num_items == old(self).num_items,
                self.items@ == old(self).items@,
                forall|k: int|
                    0 <= k < current ==> !spec_usable(
                        old(self).items@,
                        size,
                        min_address,
                        max_address,
                        k,
                    ),
            decreases count - current,
        {
            if self.items[current].can_use(size, min_address, max_address) {
                let ghost pre_items = self.items@;
                let item = &mut self.items[current];
                let locked = item.try_lock();
                if locked {
                    proof {
                        assert forall|k: int| 0 <= k < self.items@.len() implies (
                        #[trigger] self.items@[k]).wf() by {
                            assert(self.items@ == pre_items.update(
                                current as int,
                                spec_with_taken(pre_items[current as int], true),
                            ));
                        }
                    }
                    return Some(current);
                }
                proof {
                    let cur = pre_items[current as int];
                    assert(spec_with_taken(cur, true) == cur);
                    assert(self.items@ =~= pre_items);
                }
            }
            current = current + 1;
        }

        None
    }

    /// Registers a reservation the embedder has already confirmed with the
    /// platform as a new, locked item. This is the commit half of handing
    /// out a fresh buffer: nothing is registered for a reservation the
    /// platform refused, so the table never holds an item without memory
    /// behind it. Fails fast when the table is full, changing nothing.
    pub fn commit_allocated_item(&mut self, item: LocatorItem) -> (r: Result<
        usize,
        ItemAllocationError,
    >)
        requires
            old(self).wf(),
            !old(self).is_locked,
            item.wf(),
            !item.is_taken,
        ensures
            final(self).wf(),
            !final(self).is_locked,
            final(self).this_address == old(self).this_address,
            final(self).next_locator_ptr == old(self).next_locator_ptr,
            final(self).flags == old(self).flags,
            r == Err::<usize, ItemAllocationError>(ItemAllocationError::NoSpaceInHeader) <==> old(
                self,
            ).num_items >= MAX_ITEM_COUNT,
            r matches Err(e) ==> final(self).items@ == old(self).items@ && final(self).num_items
                == old(self).num_items && e == ItemAllocationError::NoSpaceInHeader,
            r matches Ok(j) ==> {
                &&& j as int == old(self).items@.len()
                &&& final(self).num_items == old(self).num_items + 1
                &&& final(self).items@ == old(self).items@.push(spec_with_taken(item, true))
            },
    {
        if self.is_full() {
            return Err(ItemAllocationError::NoSpaceInHeader);
        }

        self.lock();
        let mut new_item = item;
        new_item.lock();
        let index: usize = self.items.len();
        self.items.push(new_item);
        self.num_items = self.num_items + 1;
        self.unlock();
        Ok(index)
    }

    /// Tries to allocate an additional item in the header, if possible:
    /// fails fast when the table is full, otherwise runs the allocation
    /// search over the given free regions and registers the found
    /// reservation as a new, already locked item.
    pub fn try_allocate_item(
        &mut self,
        size: u32,
        min_address: usize,
        max_address: usize,
        sys: &Cached,
        regions: &Vec<MemoryMapEntry>,
    ) -> (r: Result<usize, ItemAllocationError>)
        requires
            old(self).wf(),
            !old(self).is_locked,
            sys.wf(),
            spec_sanitized_size(size, sys.allocation_granularity as int) <= u32::MAX,
            forall|k: int|
                0 <= k < regions@.len() ==> regions@[k].start_address <= regions@[k].end_address,
        ensures
            final(self).wf(),
            !final(self).is_locked,
            final(self).this_address == old(self).this_address,
            final(self).next_locator_ptr == old(self).next_locator_ptr,
            final(self).flags == old(self).flags,
            r matches Err(e) ==> final(self).items@ == old(self).items@ && final(self).num_items
                == old(self).num_items,
            r == Err::<usize, ItemAllocationError>(ItemAllocationError::NoSpaceInHeader) <==> old(
                self,
            ).num_items >= MAX_ITEM_COUNT,
            old(self).num_items < MAX_ITEM_COUNT ==> {
                let found = spec_search_regions(
                    regions@,
                    min_address as int,
                    max_address as int,
                    spec_sanitized_size(size, sys.allocation_granularity as int),
                    sys.allocation_granularity as int,
                );
                match r {
                    Ok(j) => {
                        &&& found is Some
                        &&& j as int == old(self).items@.len()
                        &&& final(self).num_items == old(self).num_items + 1
                        &&& final(self).items@.len() == old(self).items@.len() + 1
                        &&& final(self).items@ == old(self).items@.push(
                            final(self).items@[j as int],
                        )
                        &&& final(self).items@[j as int].base_address.value == found->Some_0
                        &&& final(self).items@[j as int].base_address.value != 0
                        &&& final(self).items@[j as int].base_address.value >= min_address
                        &&& final(self).items@[j as int].base_address.value + final(self).items@[
                            j as int
                        ].size <= max_address
                        &&& final(self).items@[j as int].size as int == spec_sanitized_size(
                            size,
                            sys.allocation_granularity as int,
                        )
                        &&& final(self).items@[j as int].size >= size
                        &&& final(self).items@[j as int].position == 0
                        &&& final(self).items@[j as int].is_taken
                    },
                    Err(e) => e == ItemAllocationError::CannotAllocateMemory && found is None,
                }
            },
    {
        if self.is_full() {
            return Err(ItemAllocationError::NoSpaceInHeader);
        }

        self.lock();

        let mut settings = BufferAllocatorSettings::new(sys);
        settings.min_address = min_address;
        settings.max_address = max_address;
        settings.size = size;
        let result = allocate(&mut settings, sys, regions);

        match result {
            Ok(mut allocated_memory) => {
                allocated_memory.lock();
                let index: usize = self.items.len();
                self.items.push(allocated_memory);
                self.num_items = self.num_items + 1;
                self.unlock();
                Ok(index)
            },
            Err(_) => {
                self.unlock();
                Err(ItemAllocationError::CannotAllocateMemory)
            },
        }
    }
}

/// The given header with only its lock flag replaced.
pub open spec fn spec_with_locked(h: LocatorHeader, locked: bool) -> LocatorHeader {
    LocatorHeader { is_locked: locked, ..h }
}

/// Releasing the header lock right after taking it returns the header to the
/// state it started in: the lock round-trip only touches the lock flag.
pub proof fn lemma_header_lock_unlock_roundtrip(x: LocatorHeader)
    requires
        !x.is_locked,
    ensures
        spec_with_locked(spec_with_locked(x, true), false) == x,
{
}

/// How many buffers initialization preallocates: the remainder past the
/// header prefix, divided by the chunk length and rounded to the nearest
/// whole number. This holds whenever the remainder past the 4096-byte
/// header does not fall in the short span just above a chunk boundary where
/// rounding the two expressions parts ways.
pub proof fn lemma_initialize_item_count(length: int)
    requires
        length >= LENGTH,
        (length - LENGTH) % (LENGTH_OF_PREALLOCATED_CHUNKS as int) == 0 || (length - LENGTH) % (
        LENGTH_OF_PREALLOCATED_CHUNKS as int) >= 4120,
    ensures
        spec_chunk_count(length - LENGTH) == (length - HEADER_PREFIX_BYTES
            + LENGTH_OF_PREALLOCATED_CHUNKS / 2) / (LENGTH_OF_PREALLOCATED_CHUNKS as int),
{
    let chunk = LENGTH_OF_PREALLOCATED_CHUNKS as int;
    let t = length - LENGTH;
    vstd::arithmetic::div_mod::lemma_fundamental_div_mod(t, chunk);
    let q = t / chunk;
    let r = t % chunk;
    if r == 0 {
        vstd::arithmetic::div_mod::lemma_fundamental_div_mod_converse_div(
            t + chunk - 1,
            chunk,
            q,
            chunk - 1,
        );
        vstd::arithmetic::div_mod::lemma_fundamental_div_mod_converse_div(
            length - HEADER_PREFIX_BYTES + chunk / 2,
            chunk,
            q,
            LENGTH - HEADER_PREFIX_BYTES + chunk / 2,
        );
    } else {
        vstd::arithmetic::div_mod::lemma_fundamental_div_mod_converse_div(
            t + chunk - 1,
            chunk,
            q + 1,
            r - 1,
        );
        vstd::arithmetic::div_mod::lemma_fundamental_div_mod_converse_div(
            length - HEADER_PREFIX_BYTES + chunk / 2,
            chunk,
            q + 1,
            r + (LENGTH - HEADER_PREFIX_BYTES + chunk / 2) - chunk,
        );
    }
}

} // verus!
