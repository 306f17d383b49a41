use vstd::prelude::*;

verus! {

/// A set of readiness events of a socket: what the event loop reports as
/// ready, or what a socket asks to be told about.
#[derive(Clone, Copy, Debug, PartialEq, Eq, Structural)]
pub struct EventSet {
    pub readable: bool,
    pub writable: bool,
    pub error: bool,
    pub hup: bool,
}

impl EventSet {
    /// The empty set.
    pub fn none() -> (e: EventSet)
        ensures
            e == (EventSet { readable: false, writable: false, error: false, hup: false }),
    {
        EventSet { readable: false, writable: false, error: false, hup: false }
    }

    /// The set that holds only "readable".
    pub fn readable() -> (e: EventSet)
        ensures
            e == (EventSet { readable: true, writable: false, error: false, hup: false }),
    {
        EventSet { readable: true, writable: false, error: false, hup: false }
    }

    /// The set that holds only "writable".
    pub fn writable() -> (e: EventSet)
        ensures
            e == (EventSet { readable: false, writable: true, error: false, hup: false }),
    {
        EventSet { readable: false, writable: true, error: false, hup: false }
    }

    /// The set that holds only "error".
    pub fn error() -> (e: EventSet)
        ensures
            e == (EventSet { readable: false, writable: false, error: true, hup: false }),
    {
        EventSet { readable: false, writable: false, error: true, hup: false }
    }

    /// The set that holds only "hang-up".
    pub fn hup() -> (e: EventSet)
        ensures
            e == (EventSet { readable: false, writable: false, error: false, hup: true }),
    {
        EventSet { readable: false, writable: false, error: false, hup: true }
    }

    /// The events of either set.
    pub fn union(self, other: EventSet) -> (e: EventSet)
        ensures
            e.readable == (self.readable || other.readable),
            e.writable == (self.writable || other.writable),
            e.error == (self.error || other.error),
            e.hup == (self.hup || other.hup),
    {
        EventSet {
            readable: self.readable || other.readable,
            writable: self.writable || other.writable,
            error: self.error || other.error,
            hup: self.hup || other.hup,
        }
    }

    pub fn is_readable(&self) -> (b: bool)
        ensures
            b == self.readable,
    {
        self.readable
    }

    pub fn is_writable(&self) -> (b: bool)
        ensures
            b == self.writable,
    {
        self.writable
    }

    pub fn is_error(&self) -> (b: bool)
        ensures
            b == self.error,
    {
        self.error
    }

    pub fn is_hup(&self) -> (b: bool)
        ensures
            b == self.hup,
    {
        self.hup
    }
}

} // verus!
