//! Proximity-constrained buffer bookkeeping: address arithmetic, free-region
//! accounting, candidate generation, and the shared locator data model used to
//! hand out slices of reserved executable memory.

pub mod address_range;
pub mod buffer_allocation_error;
pub mod buffer_allocator;
pub mod buffer_allocator_settings;
pub mod buffers;
pub mod buffer_search_error;
pub mod buffer_search_settings;
pub mod cached;
pub mod item_allocation_error;
pub mod linux_map_parser;
pub mod locator_finder;
pub mod locator_header;
pub mod locator_item;
pub mod locator_name;
pub mod map_parser_utilities;
pub mod mathematics;
pub mod private_allocation;
pub mod safe_locator_item;
pub mod wrappers;
