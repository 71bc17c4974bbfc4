use memory_buffers::locator_name::locator_file_name;

#[test]
fn locator_file_name_embeds_decimal_process_id() {
    assert_eq!(
        locator_file_name(1234),
        "/Reloaded.Memory.Buffers.MemoryBuffer, PID 1234"
    );
    assert_eq!(
        locator_file_name(0),
        "/Reloaded.Memory.Buffers.MemoryBuffer, PID 0"
    );
    assert_eq!(
        locator_file_name(u32::MAX),
        "/Reloaded.Memory.Buffers.MemoryBuffer, PID 4294967295"
    );
}
