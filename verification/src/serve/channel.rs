//! A list with one writer and many readers, each reader at its own place.

use vstd::prelude::*;
use crate::serve::error::{check_open, ServeError};

verus! {

/// A list that one writer appends to and any number of readers follow, each
/// at its own pace. The writer can close it with an error or simply let go;
/// the readers can all let go, after which nothing more can be written.
pub struct Channel<T> {
    items: Vec<T>,
    closed: Result<(), ServeError>,
    done: bool,
    deserted: bool,
}

/// What a reader finds when it looks for the next item.
#[derive(Debug, PartialEq, Eq)]
pub enum Next<T> {
    /// The next item.
    Item(T),
    /// The writer let go and every item was read.
    Done,
    /// The writer closed with an error and every item was read.
    Closed(ServeError),
    /// Nothing is there yet.
    Pending,
}

/// The place of one reader in a channel: how many items it has read.
#[derive(Clone, Copy, Debug, PartialEq, Eq, Structural)]
pub struct Cursor {
    pub next: usize,
}

impl<T> View for Channel<T> {
    type V = Seq<T>;

    /// Everything written so far, in the order of writing.
    closed spec fn view(&self) -> Seq<T> {
        self.items@
    }
}

/// What a reader at place `at` finds in a channel that holds `items`.
pub open spec fn next_of<T>(
    items: Seq<T>,
    closed: Result<(), ServeError>,
    done: bool,
    at: nat,
) -> Next<T> {
    if at < items.len() {
        Next::Item(items[at as int])
    } else {
        match closed {
            Err(e) => Next::Closed(e),
            Ok(()) => if done {
                Next::Done
            } else {
                Next::Pending
            },
        }
    }
}

impl<T> Channel<T> {
    /// The error that the writer closed with, if it did.
    pub closed spec fn closed(&self) -> Result<(), ServeError> {
        self.closed
    }

    /// Whether the writer let go.
    pub closed spec fn done(&self) -> bool {
        self.done
    }

    /// Whether every reader let go.
    pub closed spec fn deserted(&self) -> bool {
        self.deserted
    }

    /// Why nothing can be written, if so: the error that the channel was
    /// closed with, or `Cancel` once no reader is left.
    pub open spec fn refusal(&self) -> Option<ServeError> {
        match self.closed() {
            Err(e) => Some(e),
            Ok(()) => if self.deserted() {
                Some(ServeError::Cancel)
            } else {
                None
            },
        }
    }

    /// An open channel with nothing in it.
    pub fn new() -> (r: Self)
        ensures
            r@ == Seq::<T>::empty(),
            r.closed() is Ok,
            !r.done(),
            !r.deserted(),
    {
        Channel { items: Vec::new(), closed: Ok(()), done: false, deserted: false }
    }

    /// How many items were written.
    pub fn len(&self) -> (r: usize)
        ensures
            r == self@.len(),
    {
        self.items.len()
    }

    /// The item at place `i`.
    pub fn get(&self, i: usize) -> (r: &T)
        requires
            i < self@.len(),
        ensures
            *r == self@[i as int],
    {
        &self.items[i]
    }

    /// The item at place `i`, open for change.
    pub fn get_mut(&mut self, i: usize) -> (r: &mut T)
        requires
            i < old(self)@.len(),
        ensures
            *r == old(self)@[i as int],
            final(self)@ == old(self)@.update(i as int, *final(r)),
            final(self).closed() == old(self).closed(),
            final(self).done() == old(self).done(),
            final(self).deserted() == old(self).deserted(),
    {
        &mut self.items[i]
    }

    /// Whether anything can still be written.
    pub fn check(&self) -> (r: Result<(), ServeError>)
        ensures
            match r {
                Ok(()) => self.refusal() is None,
                Err(e) => self.refusal() == Some(e),
            },
    {
        check_open(&self.closed)?;
        if self.deserted {
            Err(ServeError::Cancel)
        } else {
            Ok(())
        }
    }

    /// Appends `item`, unless the channel is closed or no reader is left.
    pub fn push(&mut self, item: T) -> (r: Result<(), ServeError>)
        ensures
            final(self).closed() == old(self).closed(),
            final(self).done() == old(self).done(),
            final(self).deserted() == old(self).deserted(),
            match r {
                Ok(()) => old(self).refusal() is None && final(self)@ == old(self)@.push(item),
                Err(e) => old(self).refusal() == Some(e) && final(self)@ == old(self)@,
            },
    {
        self.check()?;
        self.items.push(item);
        Ok(())
    }

    /// Closes the channel with `err`. A channel is closed once: a second
    /// close fails with the error of the first, and one that no reader is
    /// left to see fails with `Cancel`.
    pub fn close(&mut self, err: ServeError) -> (r: Result<(), ServeError>)
        ensures
            final(self)@ == old(self)@,
            final(self).done() == old(self).done(),
            final(self).deserted() == old(self).deserted(),
            match r {
                Ok(()) => old(self).refusal() is None && final(self).closed() == Err::<
                    (),
                    ServeError,
                >(err),
                Err(e) => old(self).refusal() == Some(e) && final(self).closed() == old(
                    self,
                ).closed(),
            },
    {
        self.check()?;
        self.closed = Err(err);
        Ok(())
    }

    /// The writer lets go: what was written stays, and nothing more comes.
    pub fn finish(&mut self)
        ensures
            final(self)@ == old(self)@,
            final(self).closed() == old(self).closed(),
            final(self).done(),
            final(self).deserted() == old(self).deserted(),
    {
        self.done = true;
    }

    /// The last reader lets go: nothing more can be written.
    pub fn desert(&mut self)
        ensures
            final(self)@ == old(self)@,
            final(self).closed() == old(self).closed(),
            final(self).done() == old(self).done(),
            final(self).deserted(),
    {
        self.deserted = true;
    }
}

impl Cursor {
    /// A reader that has read nothing.
    pub fn new() -> (r: Self)
        ensures
            r.next == 0,
    {
        Cursor { next: 0 }
    }

    /// What this reader has read of `items` so far.
    pub open spec fn seen<T>(&self, items: Seq<T>) -> Seq<T> {
        if self.next <= items.len() {
            items.take(self.next as int)
        } else {
            items
        }
    }

    /// Looks at the next item without moving on.
    pub fn peek<'a, T>(&self, channel: &'a Channel<T>) -> (r: Next<&'a T>)
        ensures
            match next_of(channel@, channel.closed(), channel.done(), self.next as nat) {
                Next::Item(item) => r matches Next::Item(got) && *got == item,
                Next::Done => r is Done,
                Next::Closed(e) => r matches Next::Closed(got) && got == e,
                Next::Pending => r is Pending,
            },
    {
        if self.next < channel.items.len() {
            Next::Item(&channel.items[self.next])
        } else {
            match &channel.closed {
                Err(e) => Next::Closed(e.clone()),
                Ok(()) => if channel.done {
                    Next::Done
                } else {
                    Next::Pending
                },
            }
        }
    }

    /// Reads the next item and moves on behind it. At the end of what was
    /// written the reader stays where it is, and learns that the channel was
    /// closed, that the writer let go, or that it has to wait.
    pub fn next<'a, T>(&mut self, channel: &'a Channel<T>) -> (r: Next<&'a T>)
        ensures
            match next_of(channel@, channel.closed(), channel.done(), old(self).next as nat) {
                Next::Item(item) => r matches Next::Item(got) && *got == item && final(self).next
                    == old(self).next + 1 && final(self).seen(channel@) == old(self).seen(
                    channel@,
                ).push(item),
                Next::Done => r is Done && final(self).next == old(self).next,
                Next::Closed(e) => r matches Next::Closed(got) && got == e && final(self).next
                    == old(self).next,
                Next::Pending => r is Pending && final(self).next == old(self).next,
            },
    {
        let found = self.peek(channel);
        if self.next < channel.items.len() {
            self.next = self.next + 1;
        }
        found
    }
}

/// What a reader that starts at place `at` finds, look after look, in a
/// channel that does not change: the items from `at` on, then the same end
/// for ever.
pub open spec fn looks<T>(
    items: Seq<T>,
    closed: Result<(), ServeError>,
    done: bool,
    at: nat,
    count: nat,
) -> Seq<Next<T>>
    decreases count,
{
    if count == 0 {
        Seq::empty()
    } else {
        let found = next_of(items, closed, done, at);
        let then = if found is Item {
            at + 1
        } else {
            at
        };
        seq![found] + looks(items, closed, done, then as nat, (count - 1) as nat)
    }
}

/// Once the writer has let go, a reader finds every item that it has not
/// read, in the order of writing, and `Done` from then on.
pub proof fn lemma_drains_then_done<T>(items: Seq<T>, at: nat, count: nat, i: int)
    requires
        at <= items.len(),
        0 <= i < count,
    ensures
        looks(items, Ok(()), true, at, count).len() == count,
        looks(items, Ok(()), true, at, count)[i] == if at + i < items.len() {
            Next::Item(items[at + i])
        } else {
            Next::<T>::Done
        },
    decreases count,
{
    let closed: Result<(), ServeError> = Ok(());
    let found = next_of(items, closed, true, at);
    let then = if found is Item {
        at + 1
    } else {
        at
    };
    lemma_looks_len(items, closed, true, then as nat, (count - 1) as nat);
    if i > 0 {
        lemma_drains_then_done(items, then as nat, (count - 1) as nat, i - 1);
    }
}

/// A reader makes as many finds as it takes looks.
pub proof fn lemma_looks_len<T>(
    items: Seq<T>,
    closed: Result<(), ServeError>,
    done: bool,
    at: nat,
    count: nat,
)
    ensures
        looks(items, closed, done, at, count).len() == count,
    decreases count,
{
    if count > 0 {
        let found = next_of(items, closed, done, at);
        let then = if found is Item {
            at + 1
        } else {
            at
        };
        lemma_looks_len(items, closed, done, then as nat, (count - 1) as nat);
    }
}

/// Two readers of one channel have read the same items in the same order, as
/// far as both have read: what the one has read begins what the other has.
pub proof fn lemma_readers_agree<T>(items: Seq<T>, one: Cursor, other: Cursor)
    requires
        one.next <= other.next <= items.len(),
    ensures
        one.seen(items) == other.seen(items).take(one.next as int),
        one.seen(items).is_prefix_of(other.seen(items)),
{
}

/// Writing leaves what every reader has read as it was.
pub proof fn lemma_push_keeps_seen<T>(items: Seq<T>, item: T, reader: Cursor)
    requires
        reader.next <= items.len(),
    ensures
        reader.seen(items.push(item)) == reader.seen(items),
{
}

} // verus!
