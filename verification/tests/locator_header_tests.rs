use memory_buffers::cached::Cached;
use memory_buffers::item_allocation_error::ItemAllocationError;
use memory_buffers::locator_header::{LocatorHeader, MAX_ITEM_COUNT};
use memory_buffers::locator_item::LocatorItem;
use memory_buffers::map_parser_utilities::MemoryMapEntry;
use memory_buffers::wrappers::Unaligned;

const MAX_ADDRESS: usize = 0x7FFF_FFFF_FFFF;

fn sys() -> Cached {
    Cached::new(MAX_ADDRESS, 4242)
}

fn one_big_free_region() -> Vec<MemoryMapEntry> {
    vec![MemoryMapEntry::new(0, MAX_ADDRESS)]
}

fn item(base_address: usize, size: u32, position: u32) -> LocatorItem {
    LocatorItem {
        base_address: Unaligned::new(base_address),
        size,
        position,
        is_taken: false,
    }
}

#[test]
fn has_correct_max_item_count() {
    let expected = if std::mem::size_of::<usize>() == 4 {
        255
    } else {
        203
    };
    assert_eq!(MAX_ITEM_COUNT, expected);
}

#[test]
fn try_lock_should_lock_header_when_lock_is_available() {
    // Arrange
    let mut header = LocatorHeader::new();

    // Act
    let result = header.try_lock();

    // Assert
    assert!(result);
    assert!(header.is_locked);
}

#[test]
fn try_lock_should_not_lock_header_when_lock_is_already_acquired() {
    // Arrange
    let mut header = LocatorHeader::new();
    header.try_lock();

    // Act
    let result = header.try_lock();

    // Assert
    assert!(!result);
    assert!(header.is_locked);
}

#[test]
fn locator_header_lock_should_acquire_lock_when_lock_is_available() {
    // Arrange
    let mut header = LocatorHeader::new();

    // Act
    header.lock();

    // Assert
    assert!(header.is_locked);
}

#[test]
fn unlock_should_release_lock_when_header_is_locked() {
    // Arrange
    let mut header = LocatorHeader::new();
    header.lock();

    // Act
    header.unlock();

    // Assert
    assert!(!header.is_locked);
}

#[test]
fn lock_then_unlock_restores_header_state() {
    let mut header = LocatorHeader::new();
    let flags_before = header.flags;
    let num_items_before = header.num_items;

    header.lock();
    header.unlock();

    assert_eq!(header.flags, flags_before);
    assert_eq!(header.num_items, num_items_before);
    assert!(!header.is_locked);
}

#[test]
fn version_should_be_3_bits() {
    let mut header = LocatorHeader::new();

    for value in 0..8 {
        // 3 bits can represent 8 different values
        header.set_version(value);
        assert_eq!(header.version(), value);
    }

    // Values larger than 3 bits should overflow and only retain the least
    // significant 3 bits
    header.set_version(8);
    assert_eq!(header.version(), 0);
}

#[test]
fn get_first_available_item_locked_should_return_expected_result() {
    // Arrange
    let mut header = LocatorHeader::new();
    header.items.push(item(100, 50, 25));
    header.items.push(item(200, 50, 25));
    header.num_items = 2;

    // Act
    let result = header.get_first_available_item_locked(25, 100, 300);

    // Assert
    assert!(result.is_some());
    let index = result.unwrap();
    let locator_item = header.get_item(index);
    assert_eq!(locator_item.base_address.value, 100);
    assert!(locator_item.is_taken());
}

#[test]
fn get_first_available_item_locked_should_return_null_if_no_available_item_because_size_is_insufficient(
) {
    // Arrange
    let mut header = LocatorHeader::new();
    header.items.push(item(100, 50, 30));
    header.items.push(item(200, 50, 30));
    header.num_items = 2;

    // Act
    let result = header.get_first_available_item_locked(25, 100, 300);

    // Assert
    assert!(result.is_none());
}

#[test]
fn get_first_available_item_locked_should_return_null_if_no_available_item_because_no_buffer_fits_range(
) {
    // Arrange
    let mut header = LocatorHeader::new();
    header.items.push(item(100, 50, 0));
    header.items.push(item(200, 50, 0));
    header.num_items = 2;

    // Act
    let result = header.get_first_available_item_locked(25, 0, 100);

    // Assert
    assert!(result.is_none());
}

#[test]
fn try_allocate_item_should_allocate_item_when_header_is_not_full_and_within_address_limits() {
    // Arrange
    let cached = sys();
    let regions = one_big_free_region();
    let mut header = LocatorHeader::new();
    header.initialize(0x10000, 4096);

    let size = 100;
    let min_address = cached.max_address / 2;
    let max_address = cached.max_address;

    // Act
    let item_count = header.num_items;
    let result = header.try_allocate_item(size, min_address, max_address, &cached, &regions);
    assert_eq!(item_count + 1, header.num_items);

    // Assert
    assert!(result.is_ok());
    let index = result.unwrap();
    let address = header.get_item(index).base_address.value;
    assert!(address >= min_address);
    assert!(address <= max_address);
}

#[test]
fn try_allocate_item_should_not_allocate_item_when_header_is_full() {
    // Arrange
    let cached = sys();
    let regions = one_big_free_region();
    let mut header = LocatorHeader::new();
    header.initialize(0x10000, 4096);
    header.num_items = MAX_ITEM_COUNT as u8;

    let size = 100;
    let min_address = cached.max_address / 2;
    let max_address = cached.max_address;

    // Act
    let item_count = header.num_items;
    let result = header.try_allocate_item(size, min_address, max_address, &cached, &regions);
    assert_eq!(item_count, header.num_items);

    // Assert
    assert!(result.is_err());
    assert_eq!(result.unwrap_err(), ItemAllocationError::NoSpaceInHeader);
}

#[test]
fn try_allocate_item_should_not_allocate_item_when_outside_address_limits() {
    // Arrange
    let cached = sys();
    let regions = one_big_free_region();
    let mut header = LocatorHeader::new();
    header.initialize(0x10000, 4096);

    let size = 100;
    let min_address = 0;
    let max_address = 10; // Set maxAddress to a small value to make allocation impossible

    // Act
    let result = header.try_allocate_item(size, min_address, max_address, &cached, &regions);
    assert!(result.is_err());
    assert_eq!(result.unwrap_err(), ItemAllocationError::CannotAllocateMemory);
}

#[test]
fn initialize_preallocates_remainder_as_chunked_buffers() {
    // A 64 KiB chunk leaves 60 KiB past the header: three full 16 KiB
    // buffers and one 12 KiB tail, each at its own offset, empty and free.
    let mut header = LocatorHeader::new();
    header.initialize(0x100000, 0x10000);

    assert_eq!(header.num_items, 4);
    assert_eq!(header.items.len(), 4);
    let expected = [
        (0x100000 + 4096, 16384u32),
        (0x100000 + 4096 + 16384, 16384),
        (0x100000 + 4096 + 2 * 16384, 16384),
        (0x100000 + 4096 + 3 * 16384, 61440 - 3 * 16384),
    ];
    for (k, (base, size)) in expected.iter().enumerate() {
        let it = header.get_item(k);
        assert_eq!(it.base_address.value, *base);
        assert_eq!(it.size, *size);
        assert_eq!(it.position, 0);
        assert!(!it.is_taken);
        assert!(it.base_address.value != 0);
    }
}

#[test]
fn item_allocation_error_strings_are_stable() {
    assert_eq!(
        ItemAllocationError::NoSpaceInHeader.as_string(),
        "No more space in locator header"
    );
    assert_eq!(
        ItemAllocationError::CannotAllocateMemory.as_string(),
        "Could not allocate memory"
    );
}

#[test]
fn commit_allocated_item_registers_a_confirmed_reservation_locked() {
    let mut header = LocatorHeader::new();
    let reservation = LocatorItem::new(0x30000, 4096);

    let index = header.commit_allocated_item(reservation).unwrap();

    assert_eq!(index, 0);
    assert_eq!(header.num_items, 1);
    let registered = header.get_item(index);
    assert_eq!(registered.base_address.value, 0x30000);
    assert_eq!(registered.size, 4096);
    assert_eq!(registered.position, 0);
    assert!(registered.is_taken);
}

#[test]
fn commit_allocated_item_refuses_a_full_table() {
    let mut header = LocatorHeader::new();
    header.num_items = MAX_ITEM_COUNT as u8;
    let reservation = LocatorItem::new(0x30000, 4096);

    let result = header.commit_allocated_item(reservation);

    assert_eq!(result.unwrap_err(), ItemAllocationError::NoSpaceInHeader);
    assert_eq!(header.num_items, MAX_ITEM_COUNT as u8);
}
