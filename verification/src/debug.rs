//! The debug mode of the plug-in.

use vstd::prelude::*;

verus! {

/// Whether debug messages are wanted. They are not, until the host asks for them.
#[derive(Debug)]
pub struct DebugMode {
    enabled: bool,
}

impl View for DebugMode {
    type V = bool;

    closed spec fn view(&self) -> bool {
        self.enabled
    }
}

impl DebugMode {
    /// Debug messages are not wanted.
    pub fn new() -> (mode: DebugMode)
        ensures
            !mode@,
    {
        DebugMode { enabled: false }
    }

    /// Switches debug messages on, or off with zero.
    pub fn store(&mut self, enabled: u8)
        ensures
            final(self)@ == (enabled != 0),
    {
        self.enabled = enabled != 0;
    }
}

/// Whether debug messages are wanted.
pub fn is_debug(mode: &DebugMode) -> (wanted: bool)
    ensures
        wanted == mode@,
{
    mode.enabled
}

} // verus!
