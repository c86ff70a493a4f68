//! Where a control message that arrives goes: the table that holds what it
//! speaks of, and what is to be done with it.

use vstd::prelude::*;
use crate::message::control::Message;
use crate::message::fetch::Fetch as FetchMessage;
use crate::message::subscribe::Subscribe as SubscribeMessage;
use crate::serve::error::ServeError;

verus! {

/// The tables of a session: what each side holds, under the number that the
/// subscriber gave it.
#[derive(Clone, Copy, Debug, PartialEq, Eq, Structural)]
pub enum Table {
    /// The subscriptions that this side asked for.
    Subscribes,
    /// The fetches that this side asked for.
    Fetches,
    /// The subscriptions that this side serves.
    Subscribed,
    /// The fetches that this side serves.
    Fetched,
}

/// What is to be done with a control message that arrived.
#[derive(Debug, PartialEq, Eq)]
pub enum Dispatch {
    /// The publisher accepted the subscription of the given number.
    SubscribeOk { id: u64 },
    /// The publisher refused the subscription of the given number, or ended
    /// it: it is closed with the code and the reason that the publisher gave.
    SubscribeClosed { id: u64, error: ServeError },
    /// The publisher accepted the fetch of the given number.
    FetchOk { id: u64 },
    /// A subscription is asked for.
    Subscribe(SubscribeMessage),
    /// The subscriber gave up the subscription of the given number.
    Unsubscribe { id: u64 },
    /// A fetch is asked for.
    Fetch(FetchMessage),
    /// The subscriber gave up the fetch of the given number.
    FetchCancel { id: u64 },
    /// The message is for no state machine: nothing is done.
    Ignore,
}

/// The table that holds what a message speaks of, and the number under which
/// it holds it. A message that is for no state machine speaks of nothing.
pub open spec fn subject_of(message: Message) -> Option<(Table, u64)> {
    match message {
        Message::SubscribeOk(m) => Some((Table::Subscribes, m.id)),
        Message::SubscribeError(m) => Some((Table::Subscribes, m.id)),
        Message::SubscribeDone(m) => Some((Table::Subscribes, m.id)),
        Message::FetchOk(m) => Some((Table::Fetches, m.id)),
        Message::Subscribe(m) => Some((Table::Subscribed, m.id)),
        Message::Unsubscribe(m) => Some((Table::Subscribed, m.id)),
        Message::Fetch(m) => Some((Table::Fetched, m.id)),
        Message::FetchCancel(m) => Some((Table::Fetched, m.id)),
        Message::SubscribeUpdate(_) => None,
        Message::SubscribeNamespaceOk(_) => None,
    }
}

/// What is to be done with a message, where `known` says whether its table
/// holds the number that it speaks of.
///
/// A message that asks for something is refused as a duplicate where its
/// number is taken. Every other message is for what its table holds: where
/// the table does not hold it, nothing is found.
pub open spec fn dispatched(message: Message, known: bool) -> Result<Dispatch, ServeError> {
    match message {
        Message::Subscribe(m) => if known {
            Err(ServeError::Duplicate)
        } else {
            Ok(Dispatch::Subscribe(m))
        },
        Message::Fetch(m) => if known {
            Err(ServeError::Duplicate)
        } else {
            Ok(Dispatch::Fetch(m))
        },
        Message::SubscribeUpdate(_) => Ok(Dispatch::Ignore),
        Message::SubscribeNamespaceOk(_) => Ok(Dispatch::Ignore),
        _ => if !known {
            Err(ServeError::NotFound)
        } else {
            match message {
                Message::SubscribeOk(m) => Ok(Dispatch::SubscribeOk { id: m.id }),
                Message::SubscribeError(m) => Ok(
                    Dispatch::SubscribeClosed {
                        id: m.id,
                        error: ServeError::Closed { code: m.code, reason: m.reason },
                    },
                ),
                Message::SubscribeDone(m) => Ok(
                    Dispatch::SubscribeClosed {
                        id: m.id,
                        error: ServeError::Closed { code: m.code, reason: m.reason },
                    },
                ),
                Message::FetchOk(m) => Ok(Dispatch::FetchOk { id: m.id }),
                Message::Unsubscribe(m) => Ok(Dispatch::Unsubscribe { id: m.id }),
                Message::FetchCancel(m) => Ok(Dispatch::FetchCancel { id: m.id }),
                _ => Ok(Dispatch::Ignore),
            }
        },
    }
}

/// The table that holds what the message speaks of, and the number under
/// which it holds it.
pub fn subject(message: &Message) -> (r: Option<(Table, u64)>)
    ensures
        r == subject_of(*message),
{
    match message {
        Message::SubscribeOk(m) => Some((Table::Subscribes, m.id)),
        Message::SubscribeError(m) => Some((Table::Subscribes, m.id)),
        Message::SubscribeDone(m) => Some((Table::Subscribes, m.id)),
        Message::FetchOk(m) => Some((Table::Fetches, m.id)),
        Message::Subscribe(m) => Some((Table::Subscribed, m.id)),
        Message::Unsubscribe(m) => Some((Table::Subscribed, m.id)),
        Message::Fetch(m) => Some((Table::Fetched, m.id)),
        Message::FetchCancel(m) => Some((Table::Fetched, m.id)),
        Message::SubscribeUpdate(_) => None,
        Message::SubscribeNamespaceOk(_) => None,
    }
}

/// Says what is to be done with a message that arrived, where `known` says
/// whether its table holds the number that it speaks of.
pub fn dispatch(message: Message, known: bool) -> (r: Result<Dispatch, ServeError>)
    ensures
        r == dispatched(message, known),
{
    match message {
        Message::Subscribe(m) => if known {
            Err(ServeError::Duplicate)
        } else {
            Ok(Dispatch::Subscribe(m))
        },
        Message::Fetch(m) => if known {
            Err(ServeError::Duplicate)
        } else {
            Ok(Dispatch::Fetch(m))
        },
        Message::SubscribeUpdate(_) => Ok(Dispatch::Ignore),
        Message::SubscribeNamespaceOk(_) => Ok(Dispatch::Ignore),
        Message::SubscribeOk(m) => if known {
            Ok(Dispatch::SubscribeOk { id: m.id })
        } else {
            Err(ServeError::NotFound)
        },
        Message::SubscribeError(m) => if known {
            Ok(
                Dispatch::SubscribeClosed {
                    id: m.id,
                    error: ServeError::Closed { code: m.code, reason: m.reason },
                },
            )
        } else {
            Err(ServeError::NotFound)
        },
        Message::SubscribeDone(m) => if known {
            Ok(
                Dispatch::SubscribeClosed {
                    id: m.id,
                    error: ServeError::Closed { code: m.code, reason: m.reason },
                },
            )
        } else {
            Err(ServeError::NotFound)
        },
        Message::FetchOk(m) => if known {
            Ok(Dispatch::FetchOk { id: m.id })
        } else {
            Err(ServeError::NotFound)
        },
        Message::Unsubscribe(m) => if known {
            Ok(Dispatch::Unsubscribe { id: m.id })
        } else {
            Err(ServeError::NotFound)
        },
        Message::FetchCancel(m) => if known {
            Ok(Dispatch::FetchCancel { id: m.id })
        } else {
            Err(ServeError::NotFound)
        },
    }
}

} // verus!
