//! The first thing on every data stream: the type of the stream and its
//! header.

use vstd::prelude::*;
use crate::coding::bytestring::lemma_skip_prefix;
use crate::coding::error::{DecodeError, EncodeError};
use crate::coding::traits::{read_field, Decode, Encode, RoundTrip};
use crate::coding::varint::{lemma_varint_lengths, lemma_varint_round_trip, varint_wire};
use crate::data::fetch::FetchHeader;
use crate::data::subgroup::SubgroupHeader;
use crate::data::track::TrackHeader;

verus! {

/// The type that a stream which carries a whole track begins with.
pub const TRACK_STREAM: u64 = 0x0;

/// The type that a stream which carries one subgroup begins with.
pub const SUBGROUP_STREAM: u64 = 0x4;

/// The type that a stream which answers a fetch begins with.
pub const FETCH_STREAM: u64 = 0x5;

/// What a data stream begins with: its type, then the header of that type.
#[derive(Clone, Copy, Debug, PartialEq, Eq, Structural)]
pub enum Header {
    Track(TrackHeader),
    Subgroup(SubgroupHeader),
    Fetch(FetchHeader),
}

impl View for Header {
    type V = Header;

    open spec fn view(&self) -> Header {
        *self
    }
}

impl Header {
    /// The type that a stream with this header begins with.
    pub open spec fn kind(&self) -> u64 {
        match self {
            Header::Track(_) => TRACK_STREAM,
            Header::Subgroup(_) => SUBGROUP_STREAM,
            Header::Fetch(_) => FETCH_STREAM,
        }
    }

    /// The wire form of the header without its type.
    pub open spec fn body(&self) -> Seq<u8> {
        match self {
            Header::Track(header) => header.wire(),
            Header::Subgroup(header) => header.wire(),
            Header::Fetch(header) => header.wire(),
        }
    }

    /// The subscription or the fetch that the stream answers.
    pub fn subscribe_id(&self) -> (r: u64)
        ensures
            r == match self {
                Header::Track(header) => header.subscribe_id,
                Header::Subgroup(header) => header.subscribe_id,
                Header::Fetch(header) => header.subscribe_id,
            },
    {
        match self {
            Header::Track(header) => header.subscribe_id,
            Header::Subgroup(header) => header.subscribe_id,
            Header::Fetch(header) => header.subscribe_id,
        }
    }
}

/// Reads the type of a data stream and the header of that type off the front
/// of `s`. A type that opens no stream is refused.
pub open spec fn header_parse(s: Seq<u8>) -> Result<(Header, nat), DecodeError> {
    match u64::parse(s) {
        Err(e) => Err(e),
        Ok((kind, n0)) => if kind == TRACK_STREAM {
            match TrackHeader::parse(s.skip(n0 as int)) {
                Err(e) => Err(e),
                Ok((header, n1)) => Ok((Header::Track(header), n0 + n1)),
            }
        } else if kind == SUBGROUP_STREAM {
            match SubgroupHeader::parse(s.skip(n0 as int)) {
                Err(e) => Err(e),
                Ok((header, n1)) => Ok((Header::Subgroup(header), n0 + n1)),
            }
        } else if kind == FETCH_STREAM {
            match FetchHeader::parse(s.skip(n0 as int)) {
                Err(e) => Err(e),
                Ok((header, n1)) => Ok((Header::Fetch(header), n0 + n1)),
            }
        } else {
            Err(DecodeError::InvalidMessage(kind))
        },
    }
}

impl Encode for Header {
    open spec fn wire(&self) -> Seq<u8> {
        varint_wire(self.kind()) + self.body()
    }

    open spec fn encode_error(&self) -> Option<EncodeError> {
        match self {
            Header::Track(header) => header.encode_error(),
            Header::Subgroup(header) => header.encode_error(),
            Header::Fetch(header) => header.encode_error(),
        }
    }

    fn write(&self, out: &mut Vec<u8>) -> (r: Result<(), EncodeError>) {
        let mark: usize = out.len();
        let written = match self {
            Header::Track(header) => {
                let _ = TRACK_STREAM.write(out);
                header.write(out)
            },
            Header::Subgroup(header) => {
                let _ = SUBGROUP_STREAM.write(out);
                header.write(out)
            },
            Header::Fetch(header) => {
                let _ = FETCH_STREAM.write(out);
                header.write(out)
            },
        };
        match written {
            Ok(()) => {
                Ok(())
            },
            Err(e) => {
                out.truncate(mark);
                Err(e)
            },
        }
    }
}

impl Decode for Header {
    open spec fn parse(s: Seq<u8>) -> Result<(Header, nat), DecodeError> {
        header_parse(s)
    }

    fn read(data: &[u8], pos: usize) -> (r: Result<(Self, usize), DecodeError>) {
        let (kind, at1) = u64::read(data, pos)?;
        if kind == TRACK_STREAM {
            let (header, at2) = read_field::<TrackHeader>(data, pos, at1)?;
            Ok((Header::Track(header), at2))
        } else if kind == SUBGROUP_STREAM {
            let (header, at2) = read_field::<SubgroupHeader>(data, pos, at1)?;
            Ok((Header::Subgroup(header), at2))
        } else if kind == FETCH_STREAM {
            let (header, at2) = read_field::<FetchHeader>(data, pos, at1)?;
            Ok((Header::Fetch(header), at2))
        } else {
            Err(DecodeError::InvalidMessage(kind))
        }
    }
}

impl RoundTrip for Header {
    open spec fn faithful(&self) -> bool {
        match self {
            Header::Track(header) => header.faithful(),
            Header::Subgroup(header) => header.faithful(),
            Header::Fetch(header) => header.faithful(),
        }
    }

    proof fn lemma_round_trip(&self, rest: Seq<u8>) {
        let s = self.wire() + rest;
        lemma_varint_lengths(self.kind());
        assert(s =~= varint_wire(self.kind()) + (self.body() + rest));
        lemma_varint_round_trip(self.kind(), self.body() + rest);
        lemma_skip_prefix(varint_wire(self.kind()), self.body() + rest);
        match self {
            Header::Track(header) => header.lemma_round_trip(rest),
            Header::Subgroup(header) => header.lemma_round_trip(rest),
            Header::Fetch(header) => header.lemma_round_trip(rest),
        }
    }
}

} // verus!
