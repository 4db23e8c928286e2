//! State management for HTTP/2 connection settings.
//!
//! The types here record state only; they do not cause settings frames to be
//! sent.

use vstd::prelude::*;

verus! {

/// Manage HTTP/2 connection settings.
pub trait Settings {
    /// The recorded limit on concurrent streams.
    spec fn spec_max_concurrent_streams(&self) -> u32;

    /// Record the current max concurrent streams.
    fn set_max_concurrent_streams(&mut self, max_streams: u32)
        ensures
            final(self).spec_max_concurrent_streams() == max_streams,
    ;

    /// Get the maximum concurrent streams setting.
    fn max_concurrent_streams(&self) -> (r: u32)
        ensures
            r == self.spec_max_concurrent_streams(),
    ;
}

/// Connection settings state.
///
/// This type implements the `Settings` trait and may be used anywhere it is
/// accepted.
pub struct SettingsState {
    max_concurrent_streams: u32,
}

impl SettingsState {
    pub fn new(max_concurrent_streams: u32) -> (r: SettingsState)
        ensures
            r.spec_max_concurrent_streams() == max_concurrent_streams,
    {
        SettingsState { max_concurrent_streams }
    }
}

impl Default for SettingsState {
    /// All clients and servers support at least one concurrent stream.
    fn default() -> (r: SettingsState)
        ensures
            r.spec_max_concurrent_streams() == 1,
    {
        SettingsState { max_concurrent_streams: 1 }
    }
}

impl Settings for SettingsState {
    closed spec fn spec_max_concurrent_streams(&self) -> u32 {
        self.max_concurrent_streams
    }

    fn set_max_concurrent_streams(&mut self, max_streams: u32) {
        self.max_concurrent_streams = max_streams;
    }

    fn max_concurrent_streams(&self) -> (r: u32) {
        self.max_concurrent_streams
    }
}

} // verus!
