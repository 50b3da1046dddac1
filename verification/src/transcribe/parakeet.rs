//! The local model: it is loaded when it is first needed and dropped when it has
//! gone unused for a while.
use crate::clock;
use crate::clock::{Duration, Instant};
use vstd::prelude::*;

verus! {

/// Who the local model is.
pub const NAME: &'static str = "parakeet-local";

/// Whether the model is in memory, and when it was last used.
#[derive(Clone, Copy, Debug, PartialEq, Eq, Structural)]
pub struct Residency {
    pub loaded: bool,
    pub last_used: Instant,
}

impl Residency {
    /// Not loaded yet.
    pub fn new(now: Instant) -> (r: Self)
        ensures
            r == (Residency { loaded: false, last_used: now }),
    {
        Residency { loaded: false, last_used: now }
    }

    /// Whether a transcription has to load the model first.
    pub fn must_load(&self) -> (r: bool)
        ensures
            r == !self.loaded,
    {
        !self.loaded
    }

    /// The model was loaded.
    pub fn loaded(&mut self)
        ensures
            *final(self) == (Residency { loaded: true, ..*old(self) }),
    {
        self.loaded = true;
    }

    /// A transcription succeeded at `now`.
    pub fn used(&mut self, now: Instant)
        ensures
            *final(self) == (Residency { last_used: now, ..*old(self) }),
    {
        self.last_used = now;
    }

    /// Drops the model where it has gone unused for `timeout`, and says whether
    /// it did.
    pub fn unload_if_idle(&mut self, timeout: Duration, now: Instant) -> (unloads: bool)
        ensures
            unloads == (old(self).loaded && clock::elapsed(old(self).last_used, now)
                >= timeout.nanos),
            *final(self) == (if unloads {
                Residency { loaded: false, ..*old(self) }
            } else {
                *old(self)
            }),
    {
        if !self.loaded {
            return false;
        }
        if now.saturating_duration_since(self.last_used).nanos >= timeout.nanos {
            self.loaded = false;
            true
        } else {
            false
        }
    }
}

} // verus!
