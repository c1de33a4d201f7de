//! The pacing of the event loop: how often the interface redraws when no
//! input arrives. Polling the terminal itself happens outside the library.

use vstd::prelude::*;

verus! {

/// Paces terminal events for the application.
pub struct EventHandler {
    /// How often to emit a tick when no event arrives, in milliseconds.
    tick_rate_millis: u64,
}

impl EventHandler {
    /// The pace the handler was created with.
    pub closed spec fn spec_tick_rate_millis(self) -> u64 {
        self.tick_rate_millis
    }

    /// Create a new event handler with the default pace.
    pub fn new() -> (r: Self)
        ensures
            r.spec_tick_rate_millis() == 250,
    {
        EventHandler { tick_rate_millis: 250 }
    }

    /// How often to emit a tick when no event arrives, in milliseconds.
    pub fn tick_rate_millis(&self) -> (r: u64)
        ensures
            r == self.spec_tick_rate_millis(),
    {
        self.tick_rate_millis
    }
}

} // verus!
