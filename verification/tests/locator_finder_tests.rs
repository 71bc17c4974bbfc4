use memory_buffers::locator_finder::{
    parse_locator_pid, resolve_locator_discovery, LocatorDiscovery,
};

#[test]
fn discovery_adopts_a_pre_existing_object() {
    assert_eq!(
        resolve_locator_discovery(true, 0x7000),
        LocatorDiscovery::AdoptRecorded { head_address: 0x7000 }
    );
    assert_eq!(
        resolve_locator_discovery(false, 0x7000),
        LocatorDiscovery::InitializeMapping
    );
}

#[test]
fn parse_locator_pid_reads_the_owner_id() {
    assert_eq!(
        parse_locator_pid("Reloaded.Memory.Buffers.MemoryBuffer, PID 1234"),
        Some(1234)
    );
    assert_eq!(
        parse_locator_pid("Reloaded.Memory.Buffers.MemoryBuffer, PID 0"),
        Some(0)
    );
    assert_eq!(
        parse_locator_pid("Reloaded.Memory.Buffers.MemoryBuffer, PID 2147483647"),
        Some(i32::MAX)
    );
}

#[test]
fn parse_locator_pid_rejects_other_names() {
    assert_eq!(parse_locator_pid(""), None);
    assert_eq!(parse_locator_pid("Reloaded.Memory.Buffers.MemoryBuffer, PID "), None);
    assert_eq!(parse_locator_pid("Reloaded.Memory.Buffers.MemoryBuffer, PID 12x"), None);
    assert_eq!(parse_locator_pid("some-other-file"), None);
    assert_eq!(
        parse_locator_pid("Reloaded.Memory.Buffers.MemoryBuffer, PID 2147483648"),
        None
    );
    assert_eq!(
        parse_locator_pid("Reloaded.Memory.Buffers.MemoryBuffer, PID 99999999999999999999"),
        None
    );
}
