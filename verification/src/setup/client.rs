//! The setup frame of the client.

use vstd::prelude::*;
use crate::coding::bytestring::lemma_skip_prefix;
use crate::coding::error::{DecodeError, EncodeError};
use crate::coding::params::{params_parse, Params};
use crate::coding::traits::{read_field, Decode, Encode, RoundTrip};
use crate::coding::varint::{
    lemma_varint_lengths, lemma_varint_round_trip, read_varint, varint_parse, varint_wire,
    write_varint, VARINT_MAX,
};
use crate::setup::version::{versions_parse, Versions};

verus! {

/// The type that a client's setup frame begins with.
pub const CLIENT_SETUP: u64 = 0x20;

/// The kind of the PATH parameter, which a setup frame may not carry.
pub const PATH_PARAMETER: u64 = 0x1;

/// Sent by the client to set up the session.
#[derive(Debug, PartialEq, Eq)]
pub struct Client {
    /// The versions that the client supports, the preferred one first.
    pub versions: Versions,
    /// Parameters that come with the offer.
    pub params: Params,
}

/// What a client's setup frame says.
pub struct ClientView {
    pub versions: Seq<u64>,
    pub params: Map<u64, Seq<u8>>,
}

impl View for Client {
    type V = ClientView;

    open spec fn view(&self) -> ClientView {
        ClientView { versions: self.versions@, params: self.params@ }
    }
}

/// Reads a client's setup frame off the front of `s`: the type, a length that
/// is read and not checked, the versions and the parameters.
pub open spec fn client_parse(s: Seq<u8>) -> Result<(ClientView, nat), DecodeError> {
    match varint_parse(s) {
        Err(e) => Err(e),
        Ok((typ, n0)) => if typ != CLIENT_SETUP {
            Err(DecodeError::InvalidMessage(typ))
        } else {
            match varint_parse(s.skip(n0 as int)) {
                Err(e) => Err(e),
                Ok((_, n1)) => match versions_parse(s.skip((n0 + n1) as int)) {
                    Err(e) => Err(e),
                    Ok((versions, n2)) => match params_parse(s.skip((n0 + n1 + n2) as int)) {
                        Err(e) => Err(e),
                        Ok((params, n3)) => if params.contains_key(PATH_PARAMETER) {
                            Err(DecodeError::InvalidParameter)
                        } else {
                            Ok((ClientView { versions, params }, n0 + n1 + n2 + n3))
                        },
                    },
                },
            }
        },
    }
}

impl Client {
    /// What follows the type and the length: the versions, then the
    /// parameters.
    pub open spec fn body(&self) -> Seq<u8> {
        self.versions.wire() + self.params.wire()
    }
}

impl Encode for Client {
    open spec fn wire(&self) -> Seq<u8> {
        varint_wire(CLIENT_SETUP) + varint_wire(self.body().len() as u64) + self.body()
    }

    open spec fn encode_error(&self) -> Option<EncodeError> {
        if self.versions.encode_error() is Some {
            self.versions.encode_error()
        } else if self.params.encode_error() is Some {
            self.params.encode_error()
        } else if self.body().len() > VARINT_MAX {
            Some(EncodeError::BoundsExceeded)
        } else {
            None
        }
    }

    fn write(&self, out: &mut Vec<u8>) -> (r: Result<(), EncodeError>) {
        let mut body: Vec<u8> = Vec::new();
        match self.versions.write(&mut body) {
            Ok(()) => {},
            Err(e) => {
                return Err(e);
            },
        }
        match self.params.write(&mut body) {
            Ok(()) => {},
            Err(e) => {
                return Err(e);
            },
        }
        if body.len() as u64 > VARINT_MAX {
            return Err(EncodeError::BoundsExceeded);
        }
        write_varint(CLIENT_SETUP, out);
        write_varint(body.len() as u64, out);
        out.extend_from_slice(body.as_slice());
        Ok(())
    }
}

impl Decode for Client {
    open spec fn parse(s: Seq<u8>) -> Result<(ClientView, nat), DecodeError> {
        client_parse(s)
    }

    fn read(data: &[u8], pos: usize) -> (r: Result<(Self, usize), DecodeError>) {
        let (typ, at1) = read_varint(data, pos)?;
        if typ != CLIENT_SETUP {
            return Err(DecodeError::InvalidMessage(typ));
        }
        let (_, at2) = read_field::<u64>(data, pos, at1)?;
        let (versions, at3) = read_field::<Versions>(data, pos, at2)?;
        let (params, at4) = read_field::<Params>(data, pos, at3)?;
        if params.has(PATH_PARAMETER) {
            return Err(DecodeError::InvalidParameter);
        }
        Ok((Client { versions, params }, at4))
    }
}

impl RoundTrip for Client {
    open spec fn faithful(&self) -> bool {
        self.params.faithful() && !self.params@.contains_key(PATH_PARAMETER)
    }

    proof fn lemma_round_trip(&self, rest: Seq<u8>) {
        let v = self.versions.wire();
        let p = self.params.wire();
        let len = self.body().len() as u64;
        let s = self.wire() + rest;
        lemma_varint_lengths(CLIENT_SETUP);
        lemma_varint_lengths(len);
        assert(s =~= varint_wire(CLIENT_SETUP) + (varint_wire(len) + (v + (p + rest))));
        lemma_varint_round_trip(CLIENT_SETUP, varint_wire(len) + (v + (p + rest)));
        lemma_skip_prefix(varint_wire(CLIENT_SETUP), varint_wire(len) + (v + (p + rest)));
        lemma_varint_round_trip(len, v + (p + rest));
        assert(s.skip((1 + varint_wire(len).len()) as int) =~= v + (p + rest));
        self.versions.lemma_round_trip(p + rest);
        assert(s.skip((1 + varint_wire(len).len() + v.len()) as int) =~= p + rest);
        self.params.lemma_round_trip(rest);
    }
}

} // verus!
