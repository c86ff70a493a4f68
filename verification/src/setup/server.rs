//! The setup frame of the server.

use vstd::prelude::*;
use crate::coding::bytestring::lemma_skip_prefix;
use crate::coding::error::{DecodeError, EncodeError};
use crate::coding::params::{params_parse, Params};
use crate::coding::traits::{read_field, Decode, Encode, RoundTrip};
use crate::coding::varint::{
    lemma_varint_lengths, lemma_varint_round_trip, read_varint, varint_parse, varint_wire,
    write_varint, VARINT_MAX,
};
use crate::setup::client::PATH_PARAMETER;
use crate::setup::version::Version;

verus! {

/// The type that a server's setup frame begins with.
pub const SERVER_SETUP: u64 = 0x21;

/// Sent by the server in answer to a client's setup.
#[derive(Debug, PartialEq, Eq)]
pub struct Server {
    /// The version that the server picked.
    pub version: Version,
    /// Parameters that come with the answer.
    pub params: Params,
}

/// What a server's setup frame says.
pub struct ServerView {
    pub version: u64,
    pub params: Map<u64, Seq<u8>>,
}

impl View for Server {
    type V = ServerView;

    open spec fn view(&self) -> ServerView {
        ServerView { version: self.version@, params: self.params@ }
    }
}

/// Reads a server's setup frame off the front of `s`: the type, a length that
/// is read and not checked, the version and the parameters.
pub open spec fn server_parse(s: Seq<u8>) -> Result<(ServerView, nat), DecodeError> {
    match varint_parse(s) {
        Err(e) => Err(e),
        Ok((typ, n0)) => if typ != SERVER_SETUP {
            Err(DecodeError::InvalidMessage(typ))
        } else {
            match varint_parse(s.skip(n0 as int)) {
                Err(e) => Err(e),
                Ok((_, n1)) => match varint_parse(s.skip((n0 + n1) as int)) {
                    Err(e) => Err(e),
                    Ok((version, n2)) => match params_parse(s.skip((n0 + n1 + n2) as int)) {
                        Err(e) => Err(e),
                        Ok((params, n3)) => if params.contains_key(PATH_PARAMETER) {
                            Err(DecodeError::InvalidParameter)
                        } else {
                            Ok((ServerView { version, params }, n0 + n1 + n2 + n3))
                        },
                    },
                },
            }
        },
    }
}

impl Server {
    /// What follows the type and the length: the version, then the
    /// parameters.
    pub open spec fn body(&self) -> Seq<u8> {
        self.version.wire() + self.params.wire()
    }
}

impl Encode for Server {
    open spec fn wire(&self) -> Seq<u8> {
        varint_wire(SERVER_SETUP) + varint_wire(self.body().len() as u64) + self.body()
    }

    open spec fn encode_error(&self) -> Option<EncodeError> {
        if self.version.encode_error() is Some {
            self.version.encode_error()
        } else if self.params.encode_error() is Some {
            self.params.encode_error()
        } else if self.body().len() > VARINT_MAX {
            Some(EncodeError::BoundsExceeded)
        } else {
            None
        }
    }

    fn write(&self, out: &mut Vec<u8>) -> (r: Result<(), EncodeError>) {
        let mut body: Vec<u8> = Vec::new();
        match self.version.write(&mut body) {
            Ok(()) => {},
            Err(e) => {
                return Err(e);
            },
        }
        match self.params.write(&mut body) {
            Ok(()) => {},
            Err(e) => {
                return Err(e);
            },
        }
        if body.len() as u64 > VARINT_MAX {
            return Err(EncodeError::BoundsExceeded);
        }
        write_varint(SERVER_SETUP, out);
        write_varint(body.len() as u64, out);
        out.extend_from_slice(body.as_slice());
        Ok(())
    }
}

impl Decode for Server {
    open spec fn parse(s: Seq<u8>) -> Result<(ServerView, nat), DecodeError> {
        server_parse(s)
    }

    fn read(data: &[u8], pos: usize) -> (r: Result<(Self, usize), DecodeError>) {
        let (typ, at1) = read_varint(data, pos)?;
        if typ != SERVER_SETUP {
            return Err(DecodeError::InvalidMessage(typ));
        }
        let (_, at2) = read_field::<u64>(data, pos, at1)?;
        let (version, at3) = read_field::<Version>(data, pos, at2)?;
        let (params, at4) = read_field::<Params>(data, pos, at3)?;
        if params.has(PATH_PARAMETER) {
            return Err(DecodeError::InvalidParameter);
        }
        Ok((Server { version, params }, at4))
    }
}

impl RoundTrip for Server {
    open spec fn faithful(&self) -> bool {
        self.params.faithful() && !self.params@.contains_key(PATH_PARAMETER)
    }

    proof fn lemma_round_trip(&self, rest: Seq<u8>) {
        let v = self.version.wire();
        let p = self.params.wire();
        let len = self.body().len() as u64;
        let s = self.wire() + rest;
        lemma_varint_lengths(SERVER_SETUP);
        lemma_varint_lengths(len);
        assert(s =~= varint_wire(SERVER_SETUP) + (varint_wire(len) + (v + (p + rest))));
        lemma_varint_round_trip(SERVER_SETUP, varint_wire(len) + (v + (p + rest)));
        lemma_skip_prefix(varint_wire(SERVER_SETUP), varint_wire(len) + (v + (p + rest)));
        lemma_varint_round_trip(len, v + (p + rest));
        assert(s.skip((1 + varint_wire(len).len()) as int) =~= v + (p + rest));
        self.version.lemma_round_trip(p + rest);
        assert(s.skip((1 + varint_wire(len).len() + v.len()) as int) =~= p + rest);
        self.params.lemma_round_trip(rest);
    }
}

} // verus!
