//! Error returned when the allocator cannot reserve a region.

use vstd::prelude::*;

use crate::buffer_allocator_settings::BufferAllocatorSettings;

verus! {

/// Carries the settings that were in effect and a short cause tag.
#[derive(Debug, Clone)]
pub struct BufferAllocationError {
    pub settings: BufferAllocatorSettings,
    pub text: &'static str,
}

impl BufferAllocationError {
    pub fn new(settings: BufferAllocatorSettings, text: &'static str) -> (r: Self)
        ensures
            r.settings == settings,
            r.text == text,
    {
        Self { settings, text }
    }
}

} // verus!
