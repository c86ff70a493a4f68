//! Version numbers of the protocol, and lists of them.

use vstd::prelude::*;
use vstd::std_specs::convert::FromSpecImpl;
use crate::coding::bytestring::lemma_skip_twice;
use crate::coding::error::{DecodeError, EncodeError};
use crate::coding::traits::{Decode, Encode, RoundTrip};
use crate::coding::varint::{
    lemma_varint_lengths, lemma_varint_round_trip, read_varint, varint_parse, varint_wire,
    write_varint, VARINT_MAX,
};

verus! {

/// A version number of the protocol.
#[derive(Clone, Copy, Debug, PartialEq, Eq, Structural)]
pub struct Version(pub u64);

/// The number of draft 12 of the transport.
pub const DRAFT_12: u64 = 0xff00000c;

impl Version {
    /// Draft 12 of the transport.
    pub fn draft_12() -> (v: Version)
        ensures
            v.0 == DRAFT_12,
    {
        Version(DRAFT_12)
    }
}

impl View for Version {
    type V = u64;

    open spec fn view(&self) -> u64 {
        self.0
    }
}

/// The versions that a client offers, the preferred one first.
#[derive(Debug, PartialEq, Eq)]
pub struct Versions(pub Vec<Version>);

impl View for Versions {
    type V = Seq<u64>;

    open spec fn view(&self) -> Seq<u64> {
        Seq::new(self.0@.len(), |i: int| self.0@[i].0)
    }
}

impl<const N: usize> From<[Version; N]> for Versions {
    /// The versions of the array, in its order.
    fn from(list: [Version; N]) -> (r: Versions)
        ensures
            r@ == Seq::new(N as nat, |i: int| list@[i].0),
    {
        let mut versions: Vec<Version> = Vec::new();
        let mut i: usize = 0;
        while i < N
            invariant
                i <= N,
                versions@.len() == i,
                forall|j: int| 0 <= j < i ==> versions@[j] == list@[j],
            decreases N - i,
        {
            versions.push(list[i]);
            i += 1;
        }
        let r = Versions(versions);
        r
    }
}

impl<const N: usize> FromSpecImpl<[Version; N]> for Versions {
    open spec fn obeys_from_spec() -> bool {
        false
    }

    open spec fn from_spec(list: [Version; N]) -> Versions {
        arbitrary()
    }
}

/// The wire forms of the versions, one after the other.
pub open spec fn versions_body(versions: Seq<u64>) -> Seq<u8>
    decreases versions.len(),
{
    if versions.len() == 0 {
        Seq::empty()
    } else {
        varint_wire(versions[0]) + versions_body(versions.drop_first())
    }
}

/// The wire form of a list of versions: their number, then the versions.
pub open spec fn versions_wire(versions: Seq<u64>) -> Seq<u8> {
    varint_wire(versions.len() as u64) + versions_body(versions)
}

/// Whether every version can be written.
pub open spec fn versions_fit(versions: Seq<u64>) -> bool {
    versions.len() <= VARINT_MAX && forall|i: int|
        0 <= i < versions.len() ==> #[trigger] versions[i] <= VARINT_MAX
}

/// Reads `left` more versions from `s` at `at`, behind those already `got`.
pub open spec fn versions_read(s: Seq<u8>, at: nat, left: nat, got: Seq<u64>) -> Result<
    (Seq<u64>, nat),
    DecodeError,
>
    decreases left,
{
    if left == 0 {
        Ok((got, at))
    } else if at > s.len() {
        Err(DecodeError::UnexpectedEnd)
    } else {
        match varint_parse(s.skip(at as int)) {
            Err(e) => Err(e),
            Ok((version, n)) => versions_read(s, at + n, (left - 1) as nat, got.push(version)),
        }
    }
}

/// Reads a list of versions off the front of `s`.
pub open spec fn versions_parse(s: Seq<u8>) -> Result<(Seq<u64>, nat), DecodeError> {
    match varint_parse(s) {
        Err(e) => Err(e),
        Ok((count, n)) => versions_read(s, n, count as nat, Seq::empty()),
    }
}

/// Writing one more version appends its wire form.
pub proof fn lemma_versions_body_push(versions: Seq<u64>, version: u64)
    ensures
        versions_body(versions.push(version)) == versions_body(versions) + varint_wire(version),
    decreases versions.len(),
{
    if versions.len() == 0 {
        assert(versions_body(versions.push(version).drop_first()) =~= Seq::<u8>::empty());
    } else {
        assert(versions.push(version).drop_first() =~= versions.drop_first().push(version));
        lemma_versions_body_push(versions.drop_first(), version);
    }
}

/// Versions that were written one after the other are read back one after
/// the other, behind whatever was read before them.
pub proof fn lemma_versions_read_back(
    head: Seq<u8>,
    versions: Seq<u64>,
    rest: Seq<u8>,
    got: Seq<u64>,
)
    requires
        forall|i: int| 0 <= i < versions.len() ==> #[trigger] versions[i] <= VARINT_MAX,
    ensures
        versions_read(head + versions_body(versions) + rest, head.len(), versions.len(), got)
            == Ok::<(Seq<u64>, nat), DecodeError>(
            (got + versions, head.len() + versions_body(versions).len()),
        ),
    decreases versions.len(),
{
    let s = head + versions_body(versions) + rest;
    if versions.len() == 0 {
    } else {
        let first = versions[0];
        let tail = versions.drop_first();
        assert(s.skip(head.len() as int) =~= varint_wire(first) + (versions_body(tail) + rest));
        lemma_varint_round_trip(first, versions_body(tail) + rest);
        lemma_varint_lengths(first);
        assert(s =~= (head + varint_wire(first)) + versions_body(tail) + rest);
        lemma_versions_read_back(head + varint_wire(first), tail, rest, got.push(first));
        assert(got.push(first) + tail =~= got + versions);
    }
}

/// A list of versions reads back as itself, whatever follows it.
pub proof fn lemma_versions_round_trip(versions: Seq<u64>, rest: Seq<u8>)
    requires
        versions_fit(versions),
    ensures
        versions_parse(versions_wire(versions) + rest) == Ok::<(Seq<u64>, nat), DecodeError>(
            (versions, versions_wire(versions).len()),
        ),
{
    let count = versions.len() as u64;
    let s = versions_wire(versions) + rest;
    lemma_varint_lengths(count);
    assert(s =~= varint_wire(count) + (versions_body(versions) + rest));
    lemma_varint_round_trip(count, versions_body(versions) + rest);
    lemma_versions_read_back(varint_wire(count), versions, rest, Seq::empty());
}

impl Encode for Version {
    open spec fn wire(&self) -> Seq<u8> {
        varint_wire(self.0)
    }

    open spec fn encode_error(&self) -> Option<EncodeError> {
        if self.0 <= VARINT_MAX {
            None
        } else {
            Some(EncodeError::BoundsExceeded)
        }
    }

    fn write(&self, out: &mut Vec<u8>) -> (r: Result<(), EncodeError>) {
        if self.0 > VARINT_MAX {
            return Err(EncodeError::BoundsExceeded);
        }
        write_varint(self.0, out);
        Ok(())
    }
}

impl Decode for Version {
    open spec fn parse(s: Seq<u8>) -> Result<(u64, nat), DecodeError> {
        varint_parse(s)
    }

    fn read(data: &[u8], pos: usize) -> (r: Result<(Self, usize), DecodeError>) {
        match read_varint(data, pos) {
            Ok((v, next)) => Ok((Version(v), next)),
            Err(e) => Err(e),
        }
    }
}

impl RoundTrip for Version {
    open spec fn faithful(&self) -> bool {
        true
    }

    proof fn lemma_round_trip(&self, rest: Seq<u8>) {
        lemma_varint_round_trip(self.0, rest);
        lemma_varint_lengths(self.0);
    }
}

impl Encode for Versions {
    open spec fn wire(&self) -> Seq<u8> {
        versions_wire(self@)
    }

    open spec fn encode_error(&self) -> Option<EncodeError> {
        if versions_fit(self@) {
            None
        } else {
            Some(EncodeError::BoundsExceeded)
        }
    }

    fn write(&self, out: &mut Vec<u8>) -> (r: Result<(), EncodeError>) {
        let mark: usize = out.len();
        let count: u64 = self.0.len() as u64;
        if count > VARINT_MAX {
            return Err(EncodeError::BoundsExceeded);
        }
        write_varint(count, out);
        let mut i: usize = 0;
        while i < self.0.len()
            invariant
                i <= self.0.len(),
                mark == old(out)@.len(),
                count == self.0@.len(),
                count <= VARINT_MAX,
                self@.len() == self.0@.len(),
                out@ == old(out)@ + varint_wire(count) + versions_body(self@.take(i as int)),
                forall|j: int| 0 <= j < i ==> #[trigger] self@[j] <= VARINT_MAX,
            decreases self.0.len() - i,
        {
            let version: u64 = self.0[i].0;
            assert(version == self@[i as int]);
            if version > VARINT_MAX {
                out.truncate(mark);
                return Err(EncodeError::BoundsExceeded);
            }
            write_varint(version, out);
            proof {
                assert(self@.take(i + 1) =~= self@.take(i as int).push(self@[i as int]));
                lemma_versions_body_push(self@.take(i as int), self@[i as int]);
            }
            i += 1;
        }
        assert(self@.take(i as int) =~= self@);
        Ok(())
    }
}

impl Decode for Versions {
    open spec fn parse(s: Seq<u8>) -> Result<(Seq<u64>, nat), DecodeError> {
        versions_parse(s)
    }

    fn read(data: &[u8], pos: usize) -> (r: Result<(Self, usize), DecodeError>) {
        let ghost s = data@.skip(pos as int);
        let (count, start) = match read_varint(data, pos) {
            Ok(pair) => pair,
            Err(e) => {
                return Err(e);
            },
        };
        let mut versions = Versions(Vec::new());
        let mut at: usize = start;
        let mut done: u64 = 0;
        assert(versions@ =~= Seq::<u64>::empty());
        while done < count
            invariant
                done <= count,
                pos <= at <= data@.len(),
                s == data@.skip(pos as int),
                versions_parse(s) == versions_read(
                    s,
                    (at - pos) as nat,
                    (count - done) as nat,
                    versions@,
                ),
            decreases count - done,
        {
            proof {
                lemma_skip_twice(data@, pos as int, at - pos);
            }
            let ghost before = versions@;
            match read_varint(data, at) {
                Err(e) => {
                    return Err(e);
                },
                Ok((version, next)) => {
                    versions.0.push(Version(version));
                    assert(versions@ =~= before.push(version));
                    at = next;
                },
            }
            done += 1;
        }
        Ok((versions, at))
    }
}

impl RoundTrip for Versions {
    open spec fn faithful(&self) -> bool {
        true
    }

    proof fn lemma_round_trip(&self, rest: Seq<u8>) {
        lemma_versions_round_trip(self@, rest);
    }
}

} // verus!
