use memory_buffers::buffer_allocator_settings::BufferAllocatorSettings;
use memory_buffers::buffer_search_settings::BufferSearchSettings;
use memory_buffers::buffers::Buffers;
use memory_buffers::cached::Cached;
use memory_buffers::map_parser_utilities::MemoryMapEntry;
use memory_buffers::private_allocation::PrivateAllocation;

const MAX_ADDRESS: usize = 0x7FFF_FFFF_FFFF;

fn sys() -> Cached {
    Cached::new(MAX_ADDRESS, 4242)
}

fn one_big_free_region() -> Vec<MemoryMapEntry> {
    vec![MemoryMapEntry::new(0, MAX_ADDRESS)]
}

#[test]
fn allocate_private_memory_in_2gib() {
    let cached = sys();
    let regions = one_big_free_region();
    let mut settings = BufferAllocatorSettings::new(&cached);
    settings.min_address = 0;
    settings.max_address = i32::MAX as usize;

    let result = Buffers::allocate_private_memory(&mut settings, &cached, &regions);
    assert!(result.is_ok());

    let item = result.unwrap();
    assert!(item.size >= settings.size as usize);
}

#[test]
fn allocate_private_memory_up_to_max_address() {
    let cached = sys();
    let regions = one_big_free_region();
    let mut settings = BufferAllocatorSettings::new(&cached);
    settings.min_address = cached.max_address / 2;
    settings.max_address = cached.max_address;

    let result = Buffers::allocate_private_memory(&mut settings, &cached, &regions);
    assert!(result.is_ok());

    let item = result.unwrap();
    assert!(item.size >= settings.size as usize);
}

/// Baseline test to ensure that the buffer get logic is ok.
#[test]
fn get_buffer_baseline() {
    let cached = sys();
    let regions = one_big_free_region();
    let mut buffers = Buffers::new(cached);
    let settings = BufferSearchSettings {
        min_address: cached.max_address / 2,
        max_address: cached.max_address,
        size: 4096,
    };

    let item = buffers.get_buffer(&settings, &regions).unwrap();

    // Append some data.
    let data = [0x0; 4096];
    buffers.append_bytes(&item, &data);
    buffers.release_item(item);
}

#[test]
fn get_buffer_with_proximity() {
    const SIZE: usize = 4096;
    let cached = sys();
    let regions = one_big_free_region();
    let base_address = cached.max_address - (i32::MAX as usize);

    let mut buffers = Buffers::new(cached);
    let item = buffers.get_buffer(
        &BufferSearchSettings::from_proximity(i32::MAX as usize, base_address, SIZE),
        &regions,
    );

    assert!(item.is_ok());

    let handle = item.unwrap();
    let hi = handle.header_index;
    let ki = handle.item_index;
    let locator_item = buffers.headers[hi].get_item(ki);
    assert!(locator_item.size as usize >= SIZE);

    let offset = (locator_item.base_address.value as i64 - base_address as i64).abs();
    assert!(offset < (i32::MAX as i64));
}

#[test]
fn test_private_allocation() {
    let cached = sys();
    let regions = one_big_free_region();
    let mut settings = BufferAllocatorSettings::new(&cached);
    settings.min_address = cached.max_address / 2;
    settings.max_address = cached.max_address;

    let alloc = memory_buffers::buffer_allocator::allocate(&mut settings, &cached, &regions)
        .unwrap();
    let result = PrivateAllocation::new(
        alloc.base_address.value,
        alloc.size as usize,
        cached.this_process_id,
    );

    assert_ne!(result.base_address(), 0);
    assert!(result.size() >= 4096);
}

#[test]
fn fresh_process_buffer_lands_in_low_window() {
    // A fresh chain, a search inside the low 2 GiB: the buffer lands between
    // the first granularity boundary and the window's end.
    let cached = sys();
    let regions = one_big_free_region();
    let mut buffers = Buffers::new(cached);
    let settings = BufferSearchSettings {
        min_address: 0,
        max_address: 0x7FFF_FFFF,
        size: 4096,
    };

    let handle = buffers.get_buffer(&settings, &regions).unwrap();
    let item = buffers.headers[handle.header_index].get_item(handle.item_index);
    let base = item.base_address.value;
    assert!(base >= 0x10000);
    assert!(base <= 0x7FFF_FFFF - 4096);
}

#[test]
fn append_after_get_buffer_advances_position() {
    let cached = sys();
    let regions = one_big_free_region();
    let mut buffers = Buffers::new(cached);
    let settings = BufferSearchSettings {
        min_address: 0,
        max_address: 0x7FFF_FFFF,
        size: 4096,
    };

    let handle = buffers.get_buffer(&settings, &regions).unwrap();
    let base = buffers.headers[handle.header_index]
        .get_item(handle.item_index)
        .base_address
        .value;

    let address = buffers.append_bytes(&handle, &[0u8; 4096]);
    assert_eq!(address, base);
    let item = buffers.headers[handle.header_index].get_item(handle.item_index);
    assert_eq!(item.position, 4096);
}

#[test]
fn aligned_buffer_base_is_aligned() {
    let cached = sys();
    let regions = one_big_free_region();
    let mut buffers = Buffers::new(cached);
    let settings = BufferSearchSettings {
        min_address: cached.max_address / 2,
        max_address: cached.max_address - 4096,
        size: 4096,
    };

    for alignment in [64u32, 128, 256] {
        let handle = buffers
            .get_buffer_aligned(&settings, alignment, &regions)
            .unwrap();
        let item = buffers.headers[handle.header_index].get_item(handle.item_index);
        assert_eq!(item.base_address.value % alignment as usize, 0);
        buffers.release_item(handle);
    }
}

#[test]
fn two_live_handles_name_distinct_items() {
    let cached = sys();
    let regions = one_big_free_region();
    let mut buffers = Buffers::new(cached);
    let settings = BufferSearchSettings {
        min_address: 0,
        max_address: cached.max_address,
        size: 4096,
    };

    let first = buffers.get_buffer(&settings, &regions).unwrap();
    let second = buffers.get_buffer(&settings, &regions).unwrap();

    assert!(
        first.header_index != second.header_index || first.item_index != second.item_index
    );
}

#[test]
fn released_item_can_be_found_again() {
    let cached = sys();
    let regions = one_big_free_region();
    let mut buffers = Buffers::new(cached);
    let settings = BufferSearchSettings {
        min_address: 0,
        max_address: cached.max_address,
        size: 4096,
    };

    let first = buffers.get_buffer(&settings, &regions).unwrap();
    let first_indices = (first.header_index, first.item_index);
    buffers.release_item(first);

    let second = buffers.get_buffer(&settings, &regions).unwrap();
    assert_eq!(
        first_indices,
        (second.header_index, second.item_index)
    );
}

#[test]
fn get_buffer_fails_without_free_regions() {
    let cached = sys();
    let regions: Vec<MemoryMapEntry> = Vec::new();
    let mut buffers = Buffers::new(cached);
    let settings = BufferSearchSettings {
        min_address: 0,
        max_address: cached.max_address,
        size: 4096,
    };

    let result = buffers.get_buffer(&settings, &regions);
    assert!(result.is_err());
    let error = result.unwrap_err();
    assert_eq!(error.settings.size, settings.size);
}

#[test]
fn commit_chain_link_links_headers_write_once() {
    let cached = sys();
    let mut buffers = Buffers::new(cached);

    let first = buffers.commit_chain_link(0x40000, 4096);
    assert_eq!(first, 0);
    assert_eq!(buffers.headers.len(), 1);
    assert_eq!(buffers.headers[0].this_address.value, 0x40000);
    assert_eq!(buffers.headers[0].next_locator_ptr.value, 0);

    let second = buffers.commit_chain_link(0x50000, 0x10000);
    assert_eq!(second, 1);
    assert_eq!(buffers.headers[0].next_locator_ptr.value, 0x50000);
    assert_eq!(buffers.headers[1].this_address.value, 0x50000);
    assert_eq!(buffers.headers[1].next_locator_ptr.value, 0);
    assert_eq!(buffers.headers[1].num_items, 4);
}
