//! A shared value that counts its changes.

use vstd::prelude::*;

verus! {

/// A value shared by the two sides of a handle pair, with a count of the
/// changes made to it. Once either side has let go, the value can no longer
/// be changed.
pub struct State<T> {
    value: T,
    epoch: u64,
    dropped: bool,
}

impl<T> State<T> {
    /// The value held.
    pub closed spec fn value(&self) -> T {
        self.value
    }

    /// How many times the value was opened for change, counted modulo 2^64.
    pub closed spec fn epoch(&self) -> u64 {
        self.epoch
    }

    /// Whether one side has let go.
    pub closed spec fn dropped(&self) -> bool {
        self.dropped
    }

    /// A fresh cell that holds `value`.
    pub fn new(value: T) -> (r: Self)
        ensures
            r.value() == value,
            r.epoch() == 0,
            !r.dropped(),
    {
        State { value, epoch: 0, dropped: false }
    }

    /// Reads the value.
    pub fn lock(&self) -> (r: &T)
        ensures
            *r == self.value(),
    {
        &self.value
    }

    /// Opens the value for change, unless one side has let go. Opening counts
    /// as a change, whatever is then written.
    pub fn lock_mut(&mut self) -> (r: Option<&mut T>)
        ensures
            old(self).dropped() ==> r is None && *final(self) == *old(self),
            !old(self).dropped() ==> r is Some && *r->0 == old(self).value()
                && final(self).value() == *final(r->0)
                && final(self).epoch() == old(self).epoch().wrapping_add(1)
                && !final(self).dropped(),
    {
        if self.dropped {
            None
        } else {
            self.epoch = self.epoch.wrapping_add(1);
            Some(&mut self.value)
        }
    }

    /// The count to wait past for the next change, or nothing once one side
    /// has let go and no change can come.
    pub fn modified(&self) -> (r: Option<u64>)
        ensures
            r == if self.dropped() {
                None
            } else {
                Some(self.epoch())
            },
    {
        if self.dropped {
            None
        } else {
            Some(self.epoch)
        }
    }

    /// Whether the value was opened for change since the count was `since`.
    pub fn changed(&self, since: u64) -> (r: bool)
        ensures
            r == (self.epoch() != since),
    {
        self.epoch != since
    }

    /// One side lets go: the value stays as it is from now on. Those who wait
    /// for a change are woken by the count moving on.
    pub fn release(&mut self)
        ensures
            final(self).dropped(),
            final(self).value() == old(self).value(),
            final(self).epoch() == old(self).epoch().wrapping_add(1),
    {
        self.dropped = true;
        self.epoch = self.epoch.wrapping_add(1);
    }
}

} // verus!
