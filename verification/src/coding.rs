//! The wire forms shared by every message: variable-length integers,
//! length-prefixed strings and tuples, and parameter maps.

pub mod buffer;
pub mod bytestring;
pub mod error;
pub mod params;
pub mod string;
pub mod traits;
pub mod tuple;
pub mod varint;

pub use buffer::buffered;
pub use error::{DecodeError, EncodeError};
pub use params::Params;
pub use traits::{Decode, Encode, RoundTrip};
pub use tuple::{Tuple, TupleField};
pub use varint::VarInt;
