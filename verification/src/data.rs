//! What travels on data streams and in datagrams: stream headers and the
//! headers of the objects behind them.

pub mod datagram;
pub mod fetch;
pub mod header;
pub mod object;
pub mod subgroup;
pub mod track;

pub use datagram::Datagram;
pub use fetch::{FetchHeader, FetchObject};
pub use header::Header;
pub use object::ObjectStatus;
pub use subgroup::{SubgroupHeader, SubgroupObject};
pub use track::{TrackHeader, TrackObject};
