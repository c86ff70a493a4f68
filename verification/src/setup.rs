//! The first exchange on the control stream: the client offers versions, the
//! server picks one.

pub mod client;
pub mod server;
pub mod version;

pub use client::Client;
pub use server::Server;
pub use version::{Version, Versions};
