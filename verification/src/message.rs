//! The control messages, one record for each, with their wire forms.

pub mod control;
pub mod fetch;
pub mod fetch_cancel;
pub mod fetch_ok;
pub mod filter_type;
pub mod group_order;
pub mod subscribe;
pub mod subscribe_done;
pub mod subscribe_error;
pub mod subscribe_namespace_ok;
pub mod subscribe_ok;
pub mod subscribe_update;
pub mod unsubscribe;

pub use control::{Message, MessageView, Role};
pub use fetch::Fetch;
pub use fetch_cancel::FetchCancel;
pub use fetch_ok::FetchOk;
pub use filter_type::FilterType;
pub use group_order::GroupOrder;
pub use subscribe::{Subscribe, SubscribePair};
pub use subscribe_done::SubscribeDone;
pub use subscribe_error::SubscribeError;
pub use subscribe_namespace_ok::SubscribeNamespaceOk;
pub use subscribe_ok::SubscribeOk;
pub use subscribe_update::SubscribeUpdate;
pub use unsubscribe::Unsubscribe;
