//! A queue that can be closed, and the answer of whatever must not block.

use std::collections::VecDeque;
use vstd::prelude::*;

verus! {

/// What an attempt to take something gives when it must not block: the thing,
/// or word that it is not there yet.
#[derive(Debug, PartialEq, Eq)]
pub enum Wait<T> {
    Ready(T),
    Pending,
}

/// What taking from a queue gives: the oldest of the items that wait, and
/// at an empty queue the end once the queue is closed, or word to wait.
pub open spec fn taken<T>(items: Seq<T>, closed: bool) -> Wait<Option<T>> {
    if items.len() > 0 {
        Wait::Ready(Some(items[0]))
    } else if closed {
        Wait::Ready(None)
    } else {
        Wait::Pending
    }
}

/// What waits in a queue after one take.
pub open spec fn left<T>(items: Seq<T>) -> Seq<T> {
    if items.len() > 0 {
        items.skip(1)
    } else {
        items
    }
}

/// What take after take gives from a queue that nothing is put into.
pub open spec fn takes<T>(items: Seq<T>, closed: bool, count: nat) -> Seq<Wait<Option<T>>>
    decreases count,
{
    if count == 0 {
        Seq::empty()
    } else {
        seq![taken(items, closed)] + takes(left(items), closed, (count - 1) as nat)
    }
}

/// A closed queue gives what waits in it, the oldest first, and the end
/// from then on: no take has to wait.
pub proof fn lemma_closed_queue_drains<T>(items: Seq<T>, count: nat, i: int)
    requires
        0 <= i < count,
    ensures
        takes(items, true, count).len() == count,
        takes(items, true, count)[i] == if i < items.len() {
            Wait::Ready(Some(items[i]))
        } else {
            Wait::<Option<T>>::Ready(None)
        },
    decreases count,
{
    lemma_takes_len(left(items), true, (count - 1) as nat);
    if i > 0 {
        lemma_closed_queue_drains(left(items), (count - 1) as nat, i - 1);
    }
}

/// There are as many answers as takes.
pub proof fn lemma_takes_len<T>(items: Seq<T>, closed: bool, count: nat)
    ensures
        takes(items, closed, count).len() == count,
    decreases count,
{
    if count > 0 {
        lemma_takes_len(left(items), closed, (count - 1) as nat);
    }
}

/// An unbounded queue, first in first out, that can be closed.
pub struct Queue<T> {
    items: VecDeque<T>,
    closed: bool,
}

impl<T> View for Queue<T> {
    type V = Seq<T>;

    /// The items that wait, the oldest first.
    closed spec fn view(&self) -> Seq<T> {
        self.items@
    }
}

impl<T> Queue<T> {
    /// Whether the queue was closed.
    pub closed spec fn closed(&self) -> bool {
        self.closed
    }

    /// Whether nothing waits in the queue if it is closed. So it is in a
    /// queue that was closed by `close`, and in every queue that `finish`
    /// has not ended.
    pub open spec fn wf(&self) -> bool {
        self.closed() ==> self@.len() == 0
    }

    /// An open queue with nothing in it.
    pub fn new() -> (r: Self)
        ensures
            r@ == Seq::<T>::empty(),
            !r.closed(),
            r.wf(),
    {
        Queue { items: VecDeque::new(), closed: false }
    }

    /// Puts `item` behind the others, or hands it back when the queue is
    /// closed.
    pub fn push(&mut self, item: T) -> (r: Result<(), T>)
        ensures
            final(self).closed() == old(self).closed(),
            old(self).wf() ==> final(self).wf(),
            match r {
                Ok(()) => !old(self).closed() && final(self)@ == old(self)@.push(item),
                Err(back) => old(self).closed() && back == item && final(self)@ == old(self)@,
            },
    {
        if self.closed {
            Err(item)
        } else {
            self.items.push_back(item);
            Ok(())
        }
    }

    /// Takes the oldest item. An empty queue gives nothing once it is closed,
    /// and asks to wait while it is open.
    pub fn pop(&mut self) -> (r: Wait<Option<T>>)
        ensures
            final(self).closed() == old(self).closed(),
            old(self).wf() ==> final(self).wf(),
            r == taken(old(self)@, old(self).closed()),
            final(self)@ == left(old(self)@),
            match r {
                Wait::Ready(Some(item)) => old(self)@.len() > 0 && item == old(self)@[0]
                    && final(self)@ == old(self)@.skip(1),
                Wait::Ready(None) => old(self)@.len() == 0 && old(self).closed() && final(self)@
                    == old(self)@,
                Wait::Pending => old(self)@.len() == 0 && !old(self).closed() && final(self)@
                    == old(self)@,
            },
    {
        match self.items.pop_front() {
            Some(item) => {
                Wait::Ready(Some(item))
            },
            None => if self.closed {
                Wait::Ready(None)
            } else {
                Wait::Pending
            },
        }
    }

    /// Ends the queue: nothing more is put into it, and what waits in it
    /// stays to be taken.
    pub fn finish(&mut self)
        ensures
            final(self).closed(),
            final(self)@ == old(self)@,
    {
        self.closed = true;
    }

    /// Closes the queue and hands over what still waited in it, the oldest
    /// first.
    pub fn close(&mut self) -> (r: Vec<T>)
        ensures
            final(self).closed(),
            final(self).wf(),
            final(self)@ == Seq::<T>::empty(),
            r@ == old(self)@,
    {
        let mut rest: Vec<T> = Vec::new();
        let ghost all = self.items@;
        loop
            invariant
                all == old(self)@,
                self.closed == old(self).closed,
                rest@ + self.items@ == all,
            ensures
                self.items@.len() == 0,
                rest@ == all,
            decreases self.items@.len(),
        {
            match self.items.pop_front() {
                Some(item) => {
                    rest.push(item);
                },
                None => {
                    break ;
                },
            }
        }
        self.closed = true;
        rest
    }
}

} // verus!
