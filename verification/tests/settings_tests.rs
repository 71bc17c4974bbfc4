use memory_buffers::buffer_allocator_settings::BufferAllocatorSettings;
use memory_buffers::buffer_search_settings::BufferSearchSettings;
use memory_buffers::cached::{clamp_granularity, Cached};
use memory_buffers::mathematics;

const MAX_ADDRESS: usize = 0x7FFF_FFFF_FFFF;

fn sys() -> Cached {
    Cached::new(MAX_ADDRESS, 4242)
}

#[test]
fn buffer_allocator_settings_test_default_settings() {
    let cached = sys();
    let settings = BufferAllocatorSettings::new(&cached);
    assert_eq!(settings.min_address, 0);
    assert_eq!(settings.max_address, cached.max_address);
    assert_eq!(settings.size, 4096);
    assert_eq!(settings.target_process_id, cached.this_process_id);
    assert_eq!(settings.retry_count, 8);
    assert!(settings.brute_force);
}

#[test]
fn buffer_allocator_settings_test_from_proximity() {
    let cached = sys();
    let proximity: usize = 1000;
    let target: usize = 2000;
    let size: usize = 3000;
    let settings = BufferAllocatorSettings::from_proximity(proximity, target, size, &cached);

    assert_eq!(
        settings.max_address,
        mathematics::add_with_overflow_cap(target, proximity)
    );
    assert_eq!(
        settings.min_address,
        mathematics::subtract_with_underflow_cap(target, proximity)
    );
    assert_eq!(settings.size, size as u32);
    assert_eq!(settings.target_process_id, cached.this_process_id);
    assert_eq!(settings.retry_count, 8);
    assert!(settings.brute_force);
}

#[test]
fn test_sanitize() {
    let cached = sys();
    let mut settings = BufferAllocatorSettings::new(&cached);
    settings.min_address = 0;
    settings.size = 1;

    settings.sanitize(&cached);

    assert_eq!(settings.min_address, 0);
    assert_eq!(
        settings.size,
        mathematics::round_up(1, cached.get_allocation_granularity() as usize) as u32
    );
}

#[test]
fn buffer_search_settings_test_default_settings() {
    let cached = sys();
    let settings = BufferSearchSettings::new(&cached);
    assert_eq!(settings.min_address, 0);
    assert_eq!(settings.max_address, cached.max_address);
    assert_eq!(settings.size, 4096);
}

#[test]
fn buffer_search_settings_test_from_proximity() {
    let proximity: usize = 1000;
    let target: usize = 2000;
    let size: usize = 3000;
    let settings = BufferSearchSettings::from_proximity(proximity, target, size);

    assert_eq!(
        settings.max_address,
        mathematics::add_with_overflow_cap(target, proximity)
    );
    assert_eq!(
        settings.min_address,
        mathematics::subtract_with_underflow_cap(target, proximity)
    );
    assert_eq!(settings.size, size as u32);
}

#[test]
fn cached_reports_given_values() {
    let cached = sys();
    assert_eq!(cached.max_address, MAX_ADDRESS);
    assert_eq!(cached.this_process_id, 4242);
    assert_eq!(cached.page_size, 4096);
    assert!(cached.allocation_granularity >= 1);
}

#[test]
fn clamp_granularity_raises_and_clamps() {
    assert_eq!(clamp_granularity(0, 0), 1);
    assert_eq!(clamp_granularity(4096, 65536), 65536);
    assert_eq!(clamp_granularity(65536, 4096), 65536);
    assert_eq!(clamp_granularity(usize::MAX, 1), i32::MAX);
}
