//! Tuples: a count, then that many length-prefixed byte fields. Namespaces are
//! tuples.

use vstd::prelude::*;
use crate::coding::bytestring::{
    bytes_parse, bytes_wire, lemma_bytes_round_trip, lemma_skip_twice, read_bytes, write_bytes,
};
use crate::coding::error::{DecodeError, EncodeError};
use crate::coding::string::length_fits;
use crate::coding::traits::{Decode, Encode, RoundTrip};
use crate::coding::varint::{
    lemma_varint_lengths, lemma_varint_round_trip, read_varint, varint_parse, varint_wire,
    write_varint, VARINT_MAX,
};

verus! {

/// One field of a tuple: a byte string.
#[derive(Debug, PartialEq, Eq, Hash, Default)]
pub struct TupleField {
    pub value: Vec<u8>,
}

impl View for TupleField {
    type V = Seq<u8>;

    open spec fn view(&self) -> Seq<u8> {
        self.value@
    }
}

impl Clone for TupleField {
    fn clone(&self) -> (r: Self)
        ensures
            r@ == self@,
    {
        let value = self.value.clone();
        TupleField { value }
    }
}

impl TupleField {
    /// A field with no bytes.
    pub fn new() -> (r: Self)
        ensures
            r@ == Seq::<u8>::empty(),
    {
        TupleField { value: Vec::new() }
    }

    /// The field that holds the UTF-8 bytes of `s`.
    pub fn from_utf8(s: &str) -> (r: Self)
        ensures
            r@ == vstd::utf8::encode_utf8(s@),
    {
        TupleField { value: vstd::slice::slice_to_vec(s.as_bytes()) }
    }

    /// Whether two fields hold the same bytes.
    pub fn same(&self, other: &TupleField) -> (r: bool)
        ensures
            r == (self@ == other@),
    {
        if self.value.len() != other.value.len() {
            return false;
        }
        let mut i: usize = 0;
        while i < self.value.len()
            invariant
                i <= self.value.len(),
                self.value.len() == other.value.len(),
                forall|j: int| 0 <= j < i ==> self.value@[j] == other.value@[j],
            decreases self.value.len() - i,
        {
            if self.value[i] != other.value[i] {
                return false;
            }
            i += 1;
        }
        assert(self@ =~= other@);
        true
    }
}

impl Encode for TupleField {
    open spec fn wire(&self) -> Seq<u8> {
        bytes_wire(self@)
    }

    open spec fn encode_error(&self) -> Option<EncodeError> {
        if self@.len() <= VARINT_MAX {
            None
        } else {
            Some(EncodeError::BoundsExceeded)
        }
    }

    fn write(&self, out: &mut Vec<u8>) -> (r: Result<(), EncodeError>) {
        write_bytes(self.value.as_slice(), out)
    }
}

impl Decode for TupleField {
    open spec fn parse(s: Seq<u8>) -> Result<(Seq<u8>, nat), DecodeError> {
        bytes_parse(s)
    }

    fn read(data: &[u8], pos: usize) -> (r: Result<(Self, usize), DecodeError>) {
        match read_bytes(data, pos) {
            Err(e) => Err(e),
            Ok((value, next)) => Ok((TupleField { value }, next)),
        }
    }
}

impl RoundTrip for TupleField {
    open spec fn faithful(&self) -> bool {
        self@.len() <= usize::MAX
    }

    proof fn lemma_round_trip(&self, rest: Seq<u8>) {
        lemma_bytes_round_trip(self@, rest);
    }
}

/// The wire forms of the fields, one after the other.
pub open spec fn fields_wire(fields: Seq<Seq<u8>>) -> Seq<u8>
    decreases fields.len(),
{
    if fields.len() == 0 {
        Seq::empty()
    } else {
        bytes_wire(fields[0]) + fields_wire(fields.drop_first())
    }
}

/// Whether every field has a length that can be written.
pub open spec fn fields_fit(fields: Seq<Seq<u8>>) -> bool {
    forall|i: int| 0 <= i < fields.len() ==> length_fits(#[trigger] fields[i].len())
}

/// The wire form of a tuple: the number of fields, then the fields.
pub open spec fn tuple_wire(fields: Seq<Seq<u8>>) -> Seq<u8> {
    varint_wire(fields.len() as u64) + fields_wire(fields)
}

/// Reads `left` more fields from `s` at `at`, behind those already `got`.
pub open spec fn fields_parse(s: Seq<u8>, at: nat, left: nat, got: Seq<Seq<u8>>) -> Result<
    (Seq<Seq<u8>>, nat),
    DecodeError,
>
    decreases left,
{
    if left == 0 {
        Ok((got, at))
    } else if at > s.len() {
        Err(DecodeError::UnexpectedEnd)
    } else {
        match bytes_parse(s.skip(at as int)) {
            Err(e) => Err(e),
            Ok((field, n)) => fields_parse(s, at + n, (left - 1) as nat, got.push(field)),
        }
    }
}

/// Reads a tuple off the front of `s`.
#[verifier::opaque]
pub open spec fn tuple_parse(s: Seq<u8>) -> Result<(Seq<Seq<u8>>, nat), DecodeError> {
    match varint_parse(s) {
        Err(e) => Err(e),
        Ok((count, n)) => fields_parse(s, n, count as nat, Seq::empty()),
    }
}

/// Writing one more field appends its wire form.
pub proof fn lemma_fields_wire_push(fields: Seq<Seq<u8>>, field: Seq<u8>)
    ensures
        fields_wire(fields.push(field)) == fields_wire(fields) + bytes_wire(field),
    decreases fields.len(),
{
    if fields.len() == 0 {
        assert(fields_wire(fields.push(field).drop_first()) =~= Seq::<u8>::empty());
    } else {
        assert(fields.push(field).drop_first() =~= fields.drop_first().push(field));
        lemma_fields_wire_push(fields.drop_first(), field);
    }
}

/// Fields that were written one after the other are read back one after the
/// other, behind whatever was read before them.
pub proof fn lemma_fields_round_trip(
    head: Seq<u8>,
    fields: Seq<Seq<u8>>,
    rest: Seq<u8>,
    got: Seq<Seq<u8>>,
)
    requires
        fields_fit(fields),
    ensures
        fields_parse(head + fields_wire(fields) + rest, head.len(), fields.len(), got) == Ok::<
            (Seq<Seq<u8>>, nat),
            DecodeError,
        >((got + fields, head.len() + fields_wire(fields).len())),
    decreases fields.len(),
{
    let s = head + fields_wire(fields) + rest;
    if fields.len() == 0 {
    } else {
        let first = fields[0];
        let tail = fields.drop_first();
        assert(s.skip(head.len() as int) =~= bytes_wire(first) + (fields_wire(tail) + rest));
        lemma_bytes_round_trip(first, fields_wire(tail) + rest);
        assert(s =~= (head + bytes_wire(first)) + fields_wire(tail) + rest);
        lemma_fields_round_trip(head + bytes_wire(first), tail, rest, got.push(first));
        assert(got.push(first) + tail =~= got + fields);
    }
}

/// A tuple reads back as itself, whatever follows it.
pub proof fn lemma_tuple_round_trip(fields: Seq<Seq<u8>>, rest: Seq<u8>)
    requires
        fields.len() <= VARINT_MAX,
        fields_fit(fields),
    ensures
        tuple_parse(tuple_wire(fields) + rest) == Ok::<(Seq<Seq<u8>>, nat), DecodeError>(
            (fields, tuple_wire(fields).len()),
        ),
{
    reveal(tuple_parse);
    let count = fields.len() as u64;
    let s = tuple_wire(fields) + rest;
    lemma_varint_lengths(count);
    assert(s =~= varint_wire(count) + (fields_wire(fields) + rest));
    lemma_varint_round_trip(count, fields_wire(fields) + rest);
    lemma_fields_round_trip(varint_wire(count), fields, rest, Seq::empty());
}

/// The byte that parts the fields of a path.
pub const SLASH: u8 = 0x2f;

/// The parts of a path from place `at` on, behind the parts already `got`
/// and the beginning of a part already read.
pub open spec fn path_split(bytes: Seq<u8>, at: nat, field: Seq<u8>, got: Seq<Seq<u8>>) -> Seq<
    Seq<u8>,
>
    decreases bytes.len() - at,
{
    if at >= bytes.len() {
        got.push(field)
    } else if bytes[at as int] == SLASH {
        path_split(bytes, at + 1, Seq::empty(), got.push(field))
    } else {
        path_split(bytes, at + 1, field.push(bytes[at as int]), got)
    }
}

/// The parts of a path: what stands between its slashes. A path without a
/// slash is one part, and so is the empty path.
pub open spec fn path_fields(bytes: Seq<u8>) -> Seq<Seq<u8>> {
    path_split(bytes, 0, Seq::empty(), Seq::empty())
}

/// An ordered list of byte fields.
#[derive(Debug, PartialEq, Eq, Hash, Default)]
pub struct Tuple {
    pub fields: Vec<TupleField>,
}

impl View for Tuple {
    type V = Seq<Seq<u8>>;

    open spec fn view(&self) -> Seq<Seq<u8>> {
        Seq::new(self.fields@.len(), |i: int| self.fields@[i]@)
    }
}

impl Clone for Tuple {
    fn clone(&self) -> (r: Self)
        ensures
            r@ == self@,
    {
        let mut fields: Vec<TupleField> = Vec::new();
        let mut i: usize = 0;
        while i < self.fields.len()
            invariant
                i <= self.fields.len(),
                fields@.len() == i,
                forall|j: int| 0 <= j < i ==> fields@[j]@ == self.fields@[j]@,
            decreases self.fields.len() - i,
        {
            fields.push(self.fields[i].clone());
            i += 1;
        }
        let r = Tuple { fields };
        r
    }
}

impl Tuple {
    /// The tuple with no fields.
    pub fn new() -> (r: Self)
        ensures
            r@ == Seq::<Seq<u8>>::empty(),
    {
        let r = Tuple { fields: Vec::new() };
        r
    }

    /// Puts `field` behind the fields already there.
    pub fn add(&mut self, field: TupleField)
        ensures
            final(self)@ == old(self)@.push(field@),
    {
        self.fields.push(field);
    }

    /// The tuple of the parts of a path: what stands between its slashes,
    /// as UTF-8 bytes.
    pub fn from_utf8_path(path: &str) -> (r: Self)
        ensures
            r@ == path_fields(vstd::utf8::encode_utf8(path@)),
    {
        let bytes = path.as_bytes();
        let mut tuple = Tuple::new();
        let mut field: Vec<u8> = Vec::new();
        let mut i: usize = 0;
        while i < bytes.len()
            invariant
                i <= bytes@.len(),
                path_fields(bytes@) == path_split(bytes@, i as nat, field@, tuple@),
            decreases bytes.len() - i,
        {
            if bytes[i] == SLASH {
                tuple.add(TupleField { value: field });
                field = Vec::new();
            } else {
                field.push(bytes[i]);
            }
            i += 1;
        }
        tuple.add(TupleField { value: field });
        tuple
    }

    /// Whether two tuples hold the same fields in the same order.
    pub fn same(&self, other: &Tuple) -> (r: bool)
        ensures
            r == (self@ == other@),
    {
        if self.fields.len() != other.fields.len() {
            assert(self@.len() != other@.len());
            return false;
        }
        let mut i: usize = 0;
        while i < self.fields.len()
            invariant
                i <= self.fields.len(),
                self.fields.len() == other.fields.len(),
                forall|j: int| 0 <= j < i ==> self.fields@[j]@ == other.fields@[j]@,
            decreases self.fields.len() - i,
        {
            if !self.fields[i].same(&other.fields[i]) {
                assert(self@[i as int] != other@[i as int]);
                return false;
            }
            i += 1;
        }
        assert(self@ =~= other@);
        true
    }
}

impl Encode for Tuple {
    open spec fn wire(&self) -> Seq<u8> {
        tuple_wire(self@)
    }

    open spec fn encode_error(&self) -> Option<EncodeError> {
        if self@.len() <= VARINT_MAX && forall|i: int|
            0 <= i < self@.len() ==> (#[trigger] self@[i]).len() <= VARINT_MAX {
            None
        } else {
            Some(EncodeError::BoundsExceeded)
        }
    }

    fn write(&self, out: &mut Vec<u8>) -> (r: Result<(), EncodeError>) {
        let mark: usize = out.len();
        let count: u64 = self.fields.len() as u64;
        if count > VARINT_MAX {
            return Err(EncodeError::BoundsExceeded);
        }
        write_varint(count, out);
        let mut i: usize = 0;
        while i < self.fields.len()
            invariant
                i <= self.fields.len(),
                mark == old(out)@.len(),
                self@.len() == self.fields@.len(),
                out@ == old(out)@ + varint_wire(count) + fields_wire(self@.take(i as int)),
                forall|j: int| 0 <= j < i ==> (#[trigger] self@[j]).len() <= VARINT_MAX,
            decreases self.fields.len() - i,
        {
            match self.fields[i].write(out) {
                Ok(()) => {},
                Err(e) => {
                    out.truncate(mark);
                    assert(self@[i as int].len() > VARINT_MAX);
                    return Err(e);
                },
            }
            proof {
                assert(self@.take(i + 1) =~= self@.take(i as int).push(self@[i as int]));
                lemma_fields_wire_push(self@.take(i as int), self@[i as int]);
            }
            i += 1;
        }
        assert(self@.take(i as int) =~= self@);
        Ok(())
    }
}

impl Decode for Tuple {
    open spec fn parse(s: Seq<u8>) -> Result<(Seq<Seq<u8>>, nat), DecodeError> {
        tuple_parse(s)
    }

    fn read(data: &[u8], pos: usize) -> (r: Result<(Self, usize), DecodeError>) {
        reveal(tuple_parse);
        let ghost s = data@.skip(pos as int);
        let (count, start) = match read_varint(data, pos) {
            Ok(pair) => pair,
            Err(e) => {
                return Err(e);
            },
        };
        let mut fields: Vec<TupleField> = Vec::new();
        let mut at: usize = start;
        let mut done: u64 = 0;
        let mut tuple = Tuple { fields };
        assert(tuple@ =~= Seq::<Seq<u8>>::empty());
        while done < count
            invariant
                done <= count,
                pos <= at <= data@.len(),
                s == data@.skip(pos as int),
                tuple_parse(s) == fields_parse(s, (at - pos) as nat, (count - done) as nat, tuple@),
            decreases count - done,
        {
            proof {
                lemma_skip_twice(data@, pos as int, at - pos);
            }
            match TupleField::read(data, at) {
                Err(e) => {
                    return Err(e);
                },
                Ok((field, next)) => {
                    tuple.add(field);
                    at = next;
                },
            }
            done += 1;
        }
        Ok((tuple, at))
    }
}

impl RoundTrip for Tuple {
    open spec fn faithful(&self) -> bool {
        forall|i: int| 0 <= i < self@.len() ==> (#[trigger] self@[i]).len() <= usize::MAX
    }

    proof fn lemma_round_trip(&self, rest: Seq<u8>) {
        lemma_tuple_round_trip(self@, rest);
    }
}

} // verus!
