use memory_buffers::buffer_allocator::{allocate, get_possible_buffer_addresses, next_buffer_candidate};
use memory_buffers::buffer_allocator_settings::BufferAllocatorSettings;
use memory_buffers::cached::Cached;
use memory_buffers::map_parser_utilities::MemoryMapEntry;
use memory_buffers::mathematics::{round_down, round_up};

const ALLOCATION_GRANULARITY: usize = 65536; // Assuming 64KB Allocation Granularity
const MAX_ADDRESS: usize = 0x7FFF_FFFF_FFFF;

fn sys() -> Cached {
    Cached::new(MAX_ADDRESS, 4242)
}

fn one_big_free_region() -> Vec<MemoryMapEntry> {
    vec![MemoryMapEntry::new(0, MAX_ADDRESS)]
}

#[test]
fn page_does_not_overlap_with_min_max() {
    let min_ptr = 100000;
    let max_ptr = 200000;
    let page_size = 50000;
    let buf_size = 30000;

    // No overlap between min-max range and page
    let page_start = max_ptr + 1;
    let page_end = page_start + page_size;

    let result = get_possible_buffer_addresses(
        min_ptr,
        max_ptr,
        page_start,
        page_end,
        buf_size,
        ALLOCATION_GRANULARITY,
    )
    .len();
    assert_eq!(0, result);
}

#[test]
fn buffer_size_greater_than_page() {
    let min_ptr = 100000;
    let max_ptr = 200000;
    let page_size = 30000;
    let buf_size = 50000; // Greater than page_size

    // Page is within min-max range
    let page_start = min_ptr;
    let page_end = page_start + page_size;

    let result = get_possible_buffer_addresses(
        min_ptr,
        max_ptr,
        page_start,
        page_end,
        buf_size,
        ALLOCATION_GRANULARITY,
    )
    .len();
    assert_eq!(0, result);
}

#[test]
fn round_up_from_ptr_min() {
    let min_ptr = 100000;
    let max_ptr = 200000;
    let page_size = 200000;
    let buf_size = 30000;

    // Page is bigger than min-max range
    let page_start = min_ptr - 50000;
    let page_end = page_start + page_size;

    let result = get_possible_buffer_addresses(
        min_ptr,
        max_ptr,
        page_start,
        page_end,
        buf_size,
        ALLOCATION_GRANULARITY,
    )[0];
    assert!(result > 0);
}

#[test]
fn round_up_from_page_min() {
    let min_ptr = 1;
    let max_ptr = 200000;
    let page_size = 100000;
    let buf_size = 30000;

    // Page start is not aligned with allocation granularity
    let page_start = min_ptr + 5000; // Not multiple of 65536
    let page_end = page_start + page_size;

    let result = get_possible_buffer_addresses(
        min_ptr,
        max_ptr,
        page_start,
        page_end,
        buf_size,
        ALLOCATION_GRANULARITY,
    )[0];
    assert_eq!(result, round_up(page_start, ALLOCATION_GRANULARITY));
}

#[test]
fn round_down_from_ptr_max() {
    let min_ptr = 10000;
    let mut max_ptr = 200000;
    let page_size = 1000000;
    let buf_size = 30000;

    // Max pointer is not aligned with allocation granularity
    max_ptr -= 5000; // Not multiple of 65536

    // Page start is aligned with allocation granularity
    let page_start = 80000;
    let page_end = page_start + page_size;

    let result = get_possible_buffer_addresses(
        min_ptr,
        max_ptr,
        page_start,
        page_end,
        buf_size,
        ALLOCATION_GRANULARITY,
    )[0];
    assert_eq!(result, round_down(max_ptr - buf_size, ALLOCATION_GRANULARITY));
}

#[test]
fn round_down_from_page_max() {
    let min_ptr = 1;
    let max_ptr = 200000;
    let page_size = 120000;
    let buf_size = 30000;

    // Page end is not aligned with allocation granularity
    let page_start = min_ptr;
    let page_end = page_start + page_size - 5000; // Not multiple of 65536

    let result = get_possible_buffer_addresses(
        min_ptr,
        max_ptr,
        page_start,
        page_end,
        buf_size,
        ALLOCATION_GRANULARITY,
    )[0];
    assert_eq!(result, round_down(page_end - buf_size, ALLOCATION_GRANULARITY));
}

#[test]
fn can_allocate_in_2gib() {
    let cached = sys();
    let regions = one_big_free_region();
    let mut settings = BufferAllocatorSettings {
        min_address: 0,
        max_address: i32::MAX as usize,
        size: 4096,
        target_process_id: cached.this_process_id,
        retry_count: 8,
        brute_force: false,
    };

    let item = allocate(&mut settings, &cached, &regions).unwrap();
    let base_addr = item.base_address.value;
    assert_ne!(base_addr, 0);
    assert!(item.size >= settings.size);
}

#[test]
fn can_allocate_up_to_max_address() {
    let cached = sys();
    let regions = one_big_free_region();
    let mut settings = BufferAllocatorSettings {
        min_address: cached.max_address / 2,
        max_address: cached.max_address,
        size: 4096,
        target_process_id: cached.this_process_id,
        retry_count: 8,
        brute_force: false,
    };

    let item = allocate(&mut settings, &cached, &regions).unwrap();
    let base_addr = item.base_address.value;
    assert_ne!(base_addr, 0);
    assert!(item.size >= settings.size);
}

#[test]
fn allocation_with_min_equal_to_max_fails_for_nonempty_buffer() {
    // A single-address window cannot hold a byte, so the search fails
    // rather than settling anywhere else.
    let cached = sys();
    let regions = one_big_free_region();
    let mut settings = BufferAllocatorSettings::new(&cached);
    settings.min_address = 0x30000;
    settings.max_address = 0x30000;
    settings.size = 4096;

    let result = allocate(&mut settings, &cached, &regions);
    assert!(result.is_err());
    let error = result.unwrap_err();
    assert_eq!(error.text, "Failed to allocate buffer");
}

#[test]
fn allocation_fails_when_no_free_region_is_given() {
    let cached = sys();
    let regions: Vec<MemoryMapEntry> = Vec::new();
    let mut settings = BufferAllocatorSettings::new(&cached);
    settings.max_address = cached.max_address;

    let result = allocate(&mut settings, &cached, &regions);
    assert!(result.is_err());
}

#[test]
fn candidates_are_empty_for_disjoint_window_even_with_alignment_slack() {
    // The disjoint-window rule holds whatever the granularity.
    for granularity in [1usize, 4096, 65536] {
        let result =
            get_possible_buffer_addresses(0, 0x1000, 0x2000, 0x4000, 0x100, granularity);
        assert!(result.is_empty());
    }
}

#[test]
fn next_buffer_candidate_resumes_past_a_refusal() {
    // A refused reservation is skipped by resuming one candidate further;
    // the walk visits each remaining candidate and then reports exhaustion.
    let cached = sys();
    let regions = one_big_free_region();
    let mut settings = BufferAllocatorSettings::new(&cached);
    settings.min_address = 0x20000;
    settings.max_address = 0x100000;
    settings.size = 4096;

    let first = next_buffer_candidate(&settings, &cached, &regions, 0, 0).unwrap();
    assert_eq!(first, (0x20000, 0, 0));

    // As if the platform refused 0x20000: resume one past it.
    let second = next_buffer_candidate(&settings, &cached, &regions, first.1, first.2 + 1)
        .unwrap();
    assert_eq!(second, (0x100000 - 4096, 0, 1));

    let third = next_buffer_candidate(&settings, &cached, &regions, second.1, second.2 + 1);
    assert!(third.is_none());
}
