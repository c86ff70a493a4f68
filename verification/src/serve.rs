//! The serve pipeline: tracks and what they hold, written by one side and
//! read by any number of others.

pub mod channel;
pub mod error;
pub mod track;
pub mod tracks;

pub use channel::{Channel, Cursor, Next};
pub use tracks::{Tracks, TracksReader, TracksRequest, TracksState, TracksWriter};
pub use error::ServeError;
pub use track::{
    Datagram, DatagramsReader, DatagramsWriter, Object, StreamObject, StreamReader, StreamWriter,
    Subgroup, SubgroupReader, SubgroupState, SubgroupWriter, SubgroupsReader, SubgroupsWriter,
    Track, TrackMode, TrackReader, TrackReaderMode, TrackState, TrackWriter, TrackWriterMode,
};
