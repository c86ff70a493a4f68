//! The state machines of a session: what a subscriber and a publisher do in
//! answer to each message and each object, and what they send.
//!
//! Nothing here waits. A step that cannot go on says so, and is taken again
//! after the next change. What a pair of handles shares is given to each
//! handle when it acts.

pub mod dispatch;
pub mod error;
pub mod fetch;
pub mod fetched;
pub mod outbox;
pub mod subscribe;
pub mod subscribed;

pub use dispatch::{dispatch, subject, Dispatch, Table};
pub use error::SessionError;
pub use fetch::{Fetch, FetchInfo, FetchRecv, FetchState};
pub use fetched::{FetchTask, Fetched, FetchedRecv, FetchedState};
pub use outbox::{Publisher, Subscriber};
pub use subscribe::{Subscribe, SubscribeFilter, SubscribeInfo, SubscribeRecv, SubscribeState};
pub use subscribed::{Subscribed, SubscribedRecv, SubscribedState};
