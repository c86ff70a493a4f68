//! A relay: what answers a subscription or a fetch that arrives on one
//! session, from the broadcasts of this process or from an origin upstream.

pub mod producer;

pub use producer::{Action, Event, Locals, Producer, Route, Running};
