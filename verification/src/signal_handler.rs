//! The shutdown flag an interrupt raises. Listening for the signal itself
//! happens outside the library.

use vstd::prelude::*;

verus! {

/// Tracks whether a shutdown was requested.
pub struct SignalHandler {
    quit_requested: bool,
}

impl SignalHandler {
    /// Whether a shutdown stands requested.
    pub closed spec fn spec_should_quit(self) -> bool {
        self.quit_requested
    }

    /// Create a new signal handler; no shutdown is requested yet.
    pub fn new() -> (r: Self)
        ensures
            !r.spec_should_quit(),
    {
        SignalHandler { quit_requested: false }
    }

    /// Record that a shutdown was requested.
    pub fn request_quit(&mut self)
        ensures
            final(self).spec_should_quit(),
    {
        self.quit_requested = true;
    }

    /// Check if a quit signal has been received.
    pub fn should_quit(&self) -> (r: bool)
        ensures
            r == self.spec_should_quit(),
    {
        self.quit_requested
    }
}

} // verus!
