//! Error returned when no buffer satisfying a search can be produced.

use vstd::prelude::*;

use crate::buffer_search_settings::BufferSearchSettings;

verus! {

/// Carries the settings that were in effect and a short cause tag.
#[derive(Debug, Clone)]
pub struct BufferSearchError {
    pub settings: BufferSearchSettings,
    pub text: &'static str,
}

impl BufferSearchError {
    pub fn new(settings: BufferSearchSettings, text: &'static str) -> (r: Self)
        ensures
            r.settings == settings,
            r.text == text,
    {
        Self { settings, text }
    }
}

} // verus!
