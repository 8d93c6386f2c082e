//! The signal that tells every connection to stop.

use vstd::prelude::*;

verus! {

/// Whether the server has been told to shut down.
///
/// The flag goes up once and never comes down. A connection looks at it
/// before it starts a new read and leaves it alone otherwise.
#[derive(Clone, Copy, Debug, PartialEq, Eq, Structural)]
pub struct Shutdown {
    is_shutdown: bool,
}

impl Shutdown {
    /// Whether the signal has been given.
    pub closed spec fn triggered(self) -> bool {
        self.is_shutdown
    }

    /// A signal that has not been given yet.
    pub fn new() -> (s: Shutdown)
        ensures
            !s.triggered(),
    {
        Shutdown { is_shutdown: false }
    }

    /// Gives the signal. To give it again changes nothing.
    pub fn trigger(&mut self)
        ensures
            final(self).triggered(),
            old(self).triggered() ==> *final(self) == *old(self),
    {
        self.is_shutdown = true;
    }

    /// Returns `true` if the shutdown signal has been received.
    pub fn is_shutdown(&self) -> (b: bool)
        ensures
            b == self.triggered(),
    {
        self.is_shutdown
    }
}

} // verus!
