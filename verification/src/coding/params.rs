//! Parameter maps: a count, then that many entries of a kind and a value. A
//! value of even kind is a single variable-length integer; a value of odd
//! kind is a length-prefixed byte string.

use std::collections::HashMap;
use vstd::prelude::*;
use vstd::slice::{slice_subrange, slice_to_vec};
use vstd::std_specs::hash::*;
use vstd::std_specs::iter::IteratorSpec;
use crate::coding::bytestring::{bytes_wire, lemma_skip_prefix, lemma_skip_twice, write_bytes};
use crate::coding::error::{DecodeError, EncodeError};
use crate::coding::traits::{Decode, Encode, RoundTrip};
use crate::coding::varint::{
    lemma_varint_lengths, lemma_varint_parse_bounds, lemma_varint_round_trip, read_varint,
    varint_parse, varint_size, varint_wire, write_varint, VARINT_MAX,
};

verus! {

/// The longest value that an entry of odd kind may carry.
pub const MAX_PARAM_SIZE: usize = 8192;

/// The kind of an authorization token, the one kind that may occur more than
/// once in a list of parameters.
pub const AUTHORIZATION_TOKEN: u64 = 0x3;

/// One entry as it is written: its kind and its value.
pub type Entry = (u64, Seq<u8>);

/// Why one entry cannot be written, if it cannot.
pub open spec fn param_error(kind: u64, value: Seq<u8>) -> Option<EncodeError> {
    if kind > VARINT_MAX {
        Some(EncodeError::BoundsExceeded)
    } else if kind % 2 == 0 {
        if varint_parse(value) is Ok {
            None
        } else {
            Some(EncodeError::InvalidValue)
        }
    } else if value.len() > VARINT_MAX {
        Some(EncodeError::BoundsExceeded)
    } else {
        None
    }
}

/// The integer that a stored value of even kind holds.
pub open spec fn param_integer(value: Seq<u8>) -> u64 {
    match varint_parse(value) {
        Ok((n, _)) => n,
        Err(_) => 0,
    }
}

/// The wire form of one entry.
pub open spec fn param_wire(kind: u64, value: Seq<u8>) -> Seq<u8> {
    if kind % 2 == 0 {
        varint_wire(kind) + varint_wire(param_integer(value))
    } else {
        varint_wire(kind) + bytes_wire(value)
    }
}

/// Whether an entry reads back as it was stored: a value of even kind is an
/// integer in its shortest form and nothing else, and a value of odd kind is
/// no longer than the limit.
pub open spec fn param_faithful(kind: u64, value: Seq<u8>) -> bool {
    if kind % 2 == 0 {
        value == varint_wire(param_integer(value))
    } else {
        value.len() <= MAX_PARAM_SIZE
    }
}

/// The wire forms of the entries, one after the other.
pub open spec fn entries_wire(entries: Seq<Entry>) -> Seq<u8>
    decreases entries.len(),
{
    if entries.len() == 0 {
        Seq::empty()
    } else {
        param_wire(entries[0].0, entries[0].1) + entries_wire(entries.drop_first())
    }
}

/// The error of the first entry that cannot be written, if there is one.
pub open spec fn entries_error(entries: Seq<Entry>) -> Option<EncodeError>
    decreases entries.len(),
{
    if entries.len() == 0 {
        None
    } else if param_error(entries[0].0, entries[0].1) is Some {
        param_error(entries[0].0, entries[0].1)
    } else {
        entries_error(entries.drop_first())
    }
}

/// The wire form of a list of entries: their number, then the entries.
pub open spec fn params_wire(entries: Seq<Entry>) -> Seq<u8> {
    varint_wire(entries.len() as u64) + entries_wire(entries)
}

/// Why a list of entries cannot be written, if it cannot.
pub open spec fn params_error(entries: Seq<Entry>) -> Option<EncodeError> {
    if entries.len() > VARINT_MAX {
        Some(EncodeError::BoundsExceeded)
    } else {
        entries_error(entries)
    }
}

/// Reads one entry off the front of `s`, given the kinds `seen` before it.
pub open spec fn param_parse(s: Seq<u8>, seen: Set<u64>) -> Result<(Entry, nat), DecodeError> {
    match varint_parse(s) {
        Err(e) => Err(e),
        Ok((kind, n)) => if seen.contains(kind) && kind != AUTHORIZATION_TOKEN {
            Err(DecodeError::DuplicateParameter)
        } else if kind % 2 == 0 {
            match varint_parse(s.skip(n as int)) {
                Err(e) => Err(e),
                Ok((value, m)) => Ok(((kind, varint_wire(value)), n + m)),
            }
        } else {
            match varint_parse(s.skip(n as int)) {
                Err(e) => Err(e),
                Ok((size, m)) => if size > MAX_PARAM_SIZE {
                    Err(DecodeError::InvalidParameter)
                } else if s.len() - n - m < size {
                    Err(DecodeError::UnexpectedEnd)
                } else {
                    Ok(((kind, s.subrange((n + m) as int, n + m + size)), (n + m + size) as nat))
                },
            }
        },
    }
}

/// Reads `left` more entries from `s` at `at`, into the map `got` so far. A
/// later entry of a kind replaces an earlier one.
pub open spec fn entries_parse(s: Seq<u8>, at: nat, left: nat, got: Map<u64, Seq<u8>>) -> Result<
    (Map<u64, Seq<u8>>, nat),
    DecodeError,
>
    decreases left,
{
    if left == 0 {
        Ok((got, at))
    } else if at > s.len() {
        Err(DecodeError::UnexpectedEnd)
    } else {
        match param_parse(s.skip(at as int), got.dom()) {
            Err(e) => Err(e),
            Ok((entry, n)) => entries_parse(
                s,
                at + n,
                (left - 1) as nat,
                got.insert(entry.0, entry.1),
            ),
        }
    }
}

/// Reads a list of parameters off the front of `s`.
pub open spec fn params_parse(s: Seq<u8>) -> Result<(Map<u64, Seq<u8>>, nat), DecodeError> {
    match varint_parse(s) {
        Err(e) => Err(e),
        Ok((count, n)) => entries_parse(s, n, count as nat, Map::empty()),
    }
}

/// What a map of byte vectors holds, as a map of byte strings.
pub open spec fn stored(m: Map<u64, Vec<u8>>) -> Map<u64, Seq<u8>> {
    Map::new(|k: u64| m.contains_key(k), |k: u64| m[k]@)
}

/// Appends one entry to `out`, or leaves `out` as it was when the entry cannot
/// be written.
pub fn write_param(kind: u64, value: &[u8], out: &mut Vec<u8>) -> (r: Result<(), EncodeError>)
    ensures
        match r {
            Ok(()) => param_error(kind, value@) is None && final(out)@ == old(out)@ + param_wire(
                kind,
                value@,
            ),
            Err(e) => param_error(kind, value@) == Some(e) && final(out)@ == old(out)@,
        },
{
    if kind > VARINT_MAX {
        return Err(EncodeError::BoundsExceeded);
    }
    if kind % 2 == 0 {
        assert(value@.skip(0) =~= value@);
        match read_varint(value, 0) {
            Err(_) => Err(EncodeError::InvalidValue),
            Ok((n, _)) => {
                write_varint(kind, out);
                write_varint(n, out);
                Ok(())
            },
        }
    } else {
        if value.len() as u64 > VARINT_MAX {
            return Err(EncodeError::BoundsExceeded);
        }
        write_varint(kind, out);
        match write_bytes(value, out) {
            Ok(()) => {
                Ok(())
            },
            Err(e) => Err(e),
        }
    }
}

/// Reads one entry from `data` at `pos`; `seen` holds the entries read before
/// it.
pub fn read_param(data: &[u8], pos: usize, seen: &HashMap<u64, Vec<u8>>) -> (r: Result<
    (u64, Vec<u8>, usize),
    DecodeError,
>)
    requires
        pos <= data@.len(),
    ensures
        match param_parse(data@.skip(pos as int), seen@.dom()) {
            Ok((entry, len)) => r matches Ok((kind, value, next)) && kind == entry.0 && value@
                == entry.1 && next == pos + len && next <= data@.len(),
            Err(e) => r matches Err(got) && got == e,
        },
{
    broadcast use group_hash_axioms;

    let (kind, at) = match read_varint(data, pos) {
        Ok(pair) => pair,
        Err(e) => {
            return Err(e);
        },
    };
    if seen.contains_key(&kind) && kind != AUTHORIZATION_TOKEN {
        return Err(DecodeError::DuplicateParameter);
    }
    proof {
        lemma_skip_twice(data@, pos as int, at - pos);
    }
    if kind % 2 == 0 {
        let (value, next) = match read_varint(data, at) {
            Ok(pair) => pair,
            Err(e) => {
                return Err(e);
            },
        };
        let mut buf: Vec<u8> = Vec::new();
        write_varint(value, &mut buf);
        Ok((kind, buf, next))
    } else {
        let (n, start) = match read_varint(data, at) {
            Ok(pair) => pair,
            Err(e) => {
                return Err(e);
            },
        };
        if n > MAX_PARAM_SIZE as u64 {
            return Err(DecodeError::InvalidParameter);
        }
        let size: usize = n as usize;
        if data.len() - start < size {
            return Err(DecodeError::UnexpectedEnd);
        }
        let buf = slice_to_vec(slice_subrange(data, start, start + size));
        Ok((kind, buf, start + size))
    }
}

/// A map from parameter kind to the bytes stored for it.
#[derive(Debug, PartialEq, Eq)]
pub struct Params(pub HashMap<u64, Vec<u8>>);

impl View for Params {
    type V = Map<u64, Seq<u8>>;

    open spec fn view(&self) -> Map<u64, Seq<u8>> {
        stored(self.0@)
    }
}

impl Default for Params {
    fn default() -> (r: Self)
        ensures
            r@ == Map::<u64, Seq<u8>>::empty(),
    {
        let r = Params(HashMap::new());
        r
    }
}

impl Clone for Params {
    fn clone(&self) -> (r: Self)
        ensures
            r@ == self@,
    {
        Params(self.0.clone())
    }
}

impl Params {
    /// The empty map.
    pub fn new() -> (r: Self)
        ensures
            r@ == Map::<u64, Seq<u8>>::empty(),
    {
        Self::default()
    }

    /// Stores the wire form of `p` under `kind`, in place of what was stored
    /// there. A value without a wire form leaves the map as it was.
    pub fn set<P: Encode>(&mut self, kind: u64, p: P) -> (r: Result<(), EncodeError>)
        ensures
            match r {
                Ok(()) => p.encode_error() is None && final(self)@ == old(self)@.insert(
                    kind,
                    p.wire(),
                ),
                Err(e) => p.encode_error() == Some(e) && final(self)@ == old(self)@,
            },
    {
        broadcast use group_hash_axioms;

        let mut value: Vec<u8> = Vec::new();
        match p.write(&mut value) {
            Ok(()) => {},
            Err(e) => {
                return Err(e);
            },
        }
        self.0.insert(kind, value);
        Ok(())
    }

    /// Whether anything is stored under `kind`.
    pub fn has(&self, kind: u64) -> (r: bool)
        ensures
            r == self@.contains_key(kind),
    {
        broadcast use group_hash_axioms;

        self.0.contains_key(&kind)
    }

    /// Takes out what is stored under `kind` and reads it as a `P`. The entry
    /// leaves the map whether or not its bytes can be read.
    pub fn get<P: Decode>(&mut self, kind: u64) -> (r: Result<Option<P>, DecodeError>)
        ensures
            final(self)@ == old(self)@.remove(kind),
            !old(self)@.contains_key(kind) ==> r matches Ok(None),
            old(self)@.contains_key(kind) ==> match P::parse(old(self)@[kind]) {
                Ok((value, _)) => r matches Ok(Some(p)) && p@ == value,
                Err(e) => r matches Err(got) && got == e,
            },
    {
        broadcast use group_hash_axioms;

        let taken = self.0.remove(&kind);
        match taken {
            None => Ok(None),
            Some(value) => {
                assert(value@.skip(0) =~= value@);
                match P::read(value.as_slice(), 0) {
                    Ok((p, _)) => Ok(Some(p)),
                    Err(e) => Err(e),
                }
            },
        }
    }
}

/// Whether `entries` lists the map `m` once: no kind twice, every entry in
/// the map, every key of the map among the entries.
pub open spec fn enumerates(entries: Seq<Entry>, m: Map<u64, Seq<u8>>) -> bool {
    &&& forall|i: int, j: int|
        0 <= i < entries.len() && 0 <= j < entries.len() && i != j ==> (#[trigger] entries[i]).0
            != (#[trigger] entries[j]).0
    &&& forall|i: int|
        0 <= i < entries.len() ==> m.contains_key((#[trigger] entries[i]).0) && m[entries[i].0]
            == entries[i].1
    &&& forall|k: u64|
        m.contains_key(k)
            ==> exists|i: int| 0 <= i < entries.len() && (#[trigger] entries[i]).0 == k
}

/// Whether every entry reads back as it was stored.
pub open spec fn entries_faithful(entries: Seq<Entry>) -> bool {
    forall|i: int|
        0 <= i < entries.len() ==> param_faithful((#[trigger] entries[i]).0, entries[i].1)
}

/// The map that reading the entries in order builds on top of `got`.
pub open spec fn entries_map(entries: Seq<Entry>, got: Map<u64, Seq<u8>>) -> Map<u64, Seq<u8>>
    decreases entries.len(),
{
    if entries.len() == 0 {
        got
    } else {
        entries_map(entries.drop_first(), got.insert(entries[0].0, entries[0].1))
    }
}

/// A map that holds finitely many entries can be listed once.
pub proof fn lemma_enumeration_exists(m: Map<u64, Seq<u8>>)
    requires
        m.dom().finite(),
    ensures
        exists|entries: Seq<Entry>| enumerates(entries, m),
    decreases m.dom().len(),
{
    if m.dom().len() == 0 {
        assert(enumerates(Seq::<Entry>::empty(), m));
    } else {
        let k = m.dom().choose();
        let less = m.remove(k);
        lemma_enumeration_exists(less);
        let listed = choose|entries: Seq<Entry>| enumerates(entries, less);
        let entries = listed.push((k, m[k]));
        assert forall|key: u64| m.contains_key(key) implies exists|i: int|
            0 <= i < entries.len() && (#[trigger] entries[i]).0 == key by {
            if key == k {
                assert(entries[listed.len() as int].0 == k);
            } else {
                let i = choose|i: int| 0 <= i < listed.len() && (#[trigger] listed[i]).0 == key;
                assert(entries[i].0 == key);
            }
        }
        assert forall|i: int| 0 <= i < entries.len() implies m.contains_key(
            (#[trigger] entries[i]).0,
        ) && m[entries[i].0] == entries[i].1 by {
            if i < listed.len() {
                assert(entries[i] == listed[i]);
                assert(less.contains_key(listed[i].0));
            }
        }
        assert forall|i: int, j: int|
            0 <= i < entries.len() && 0 <= j < entries.len() && i != j implies (
        #[trigger] entries[i]).0 != (#[trigger] entries[j]).0 by {
            if i < listed.len() {
                assert(entries[i] == listed[i]);
                assert(less.contains_key(listed[i].0));
            }
            if j < listed.len() {
                assert(entries[j] == listed[j]);
                assert(less.contains_key(listed[j].0));
            }
        }
        assert(enumerates(entries, m));
    }
}

impl Params {
    /// The entries in the order in which the map hands them out.
    pub open spec fn handed_out(&self) -> Seq<Entry> {
        into_iter(spec_hash_map_iter(&self.0)).map_values(|kv: (u64, Vec<u8>)| (kv.0, kv.1@))
    }

    /// The entries in the order in which they are written: that in which
    /// the map hands them out, each once.
    pub open spec fn walk(&self) -> Seq<Entry> {
        if enumerates(self.handed_out(), self@) {
            self.handed_out()
        } else {
            choose|entries: Seq<Entry>| enumerates(entries, self@)
        }
    }

    /// The entries are written once each.
    pub proof fn lemma_walk(&self)
        ensures
            enumerates(self.walk(), self@),
    {
        broadcast use group_hash_axioms;

        assert(self@.dom() =~= self.0@.dom());
        lemma_enumeration_exists(self@);
    }

    /// Counts the entries, and finds that the map hands out each of them
    /// once.
    fn survey(&self) -> (count: usize)
        ensures
            count == self.walk().len(),
            count == self@.dom().len(),
            self.walk() == self.handed_out(),
            enumerates(self.walk(), self@),
    {
        broadcast use group_hash_axioms;

        let probe = self.0.iter();
        proof {
            let seen = probe.remaining();
            let walk = self.handed_out();
            axiom_spec_hash_map_iter(&self.0);
            assert forall|i: int, j: int|
                0 <= i < walk.len() && 0 <= j < walk.len() && i != j implies (#[trigger] walk[i]).0
                != (#[trigger] walk[j]).0 by {
                assert(self.0@.contains_key(*seen[j].0));
            }
            assert forall|k: u64| self@.contains_key(k) implies exists|i: int|
                0 <= i < walk.len() && (#[trigger] walk[i]).0 == k by {
                let i = choose|i: int| 0 <= i < seen.len() && seen[i] == (&k, &self.0@[k]);
                assert(walk[i] == (*seen[i].0, seen[i].1@));
            }
            assert(self@.dom() =~= self.0@.dom());
        }
        self.0.len()
    }
}

/// Writing one more entry appends its wire form.
pub proof fn lemma_entries_wire_push(entries: Seq<Entry>, entry: Entry)
    ensures
        entries_wire(entries.push(entry)) == entries_wire(entries) + param_wire(entry.0, entry.1),
    decreases entries.len(),
{
    if entries.len() == 0 {
        assert(entries_wire(entries.push(entry).drop_first()) =~= Seq::<u8>::empty());
    } else {
        assert(entries.push(entry).drop_first() =~= entries.drop_first().push(entry));
        lemma_entries_wire_push(entries.drop_first(), entry);
    }
}

/// The first entry that cannot be written is found among the entries before
/// a new one, or is the new one.
pub proof fn lemma_entries_error_push(entries: Seq<Entry>, entry: Entry)
    ensures
        entries_error(entries.push(entry)) == if entries_error(entries) is Some {
            entries_error(entries)
        } else {
            param_error(entry.0, entry.1)
        },
    decreases entries.len(),
{
    if entries.len() == 0 {
        assert(entries_error(entries.push(entry).drop_first()) is None);
    } else {
        assert(entries.push(entry).drop_first() =~= entries.drop_first().push(entry));
        lemma_entries_error_push(entries.drop_first(), entry);
    }
}

/// An error among the first entries is the error of the whole list.
pub proof fn lemma_entries_error_prefix(entries: Seq<Entry>, n: int)
    requires
        0 <= n <= entries.len(),
        entries_error(entries.take(n)) is Some,
    ensures
        entries_error(entries) == entries_error(entries.take(n)),
    decreases entries.len() - n,
{
    if n < entries.len() {
        assert(entries.take(n + 1) =~= entries.take(n).push(entries[n]));
        lemma_entries_error_push(entries.take(n), entries[n]);
        lemma_entries_error_prefix(entries, n + 1);
    } else {
        assert(entries.take(n) =~= entries);
    }
}

impl Encode for Params {
    open spec fn wire(&self) -> Seq<u8> {
        params_wire(self.walk())
    }

    open spec fn encode_error(&self) -> Option<EncodeError> {
        params_error(self.walk())
    }

    fn write(&self, out: &mut Vec<u8>) -> (r: Result<(), EncodeError>) {
        broadcast use {
            axiom_u64_obeys_hash_table_key_model,
            axiom_random_state_builds_valid_hashers,
        };

        let mark: usize = out.len();
        let count: usize = self.survey();
        let ghost walk = self.walk();
        if count as u64 > VARINT_MAX {
            return Err(EncodeError::BoundsExceeded);
        }
        write_varint(count as u64, out);
        let ghost base = out@;
        for kv in it: self.0.iter()
            invariant
                it.snapshot@ == spec_hash_map_iter(&self.0),
                mark == old(out)@.len(),
                base == old(out)@ + varint_wire(count as u64),
                walk == self.walk(),
                walk == self.handed_out(),
                walk.len() == count,
                count <= VARINT_MAX,
                entries_error(walk.take(it.index())) is None,
                out@ == base + entries_wire(walk.take(it.index())),
        {
            let ghost i = it.index();
            let step = write_param(*kv.0, kv.1.as_slice(), out);
            proof {
                assert(walk.take(i + 1) == walk.take(i).push(walk[i]));
                lemma_entries_wire_push(walk.take(i), walk[i]);
                lemma_entries_error_push(walk.take(i), walk[i]);
            }
            match step {
                Ok(()) => {
                },
                Err(e) => {
                    out.truncate(mark);
                    proof {
                        lemma_entries_error_prefix(walk, i + 1);
                    }
                    return Err(e);
                },
            }
        }
        proof {
            assert(walk.take(walk.len() as int) =~= walk);
        }
        Ok(())
    }
}

impl Decode for Params {
    open spec fn parse(s: Seq<u8>) -> Result<(Map<u64, Seq<u8>>, nat), DecodeError> {
        params_parse(s)
    }

    fn read(data: &[u8], pos: usize) -> (r: Result<(Self, usize), DecodeError>) {
        broadcast use group_hash_axioms;

        let ghost s = data@.skip(pos as int);
        let (count, start) = match read_varint(data, pos) {
            Ok(pair) => pair,
            Err(e) => {
                return Err(e);
            },
        };
        let mut params: HashMap<u64, Vec<u8>> = HashMap::new();
        let mut at: usize = start;
        let mut done: u64 = 0;
        assert(stored(params@) =~= Map::<u64, Seq<u8>>::empty());
        while done < count
            invariant
                done <= count,
                pos <= at <= data@.len(),
                s == data@.skip(pos as int),
                params_parse(s) == entries_parse(
                    s,
                    (at - pos) as nat,
                    (count - done) as nat,
                    stored(params@),
                ),
            decreases count - done,
        {
            proof {
                lemma_skip_twice(data@, pos as int, at - pos);
            }
            match read_param(data, at, &params) {
                Err(e) => {
                    return Err(e);
                },
                Ok((kind, value, next)) => {
                    let ghost before = stored(params@);
                    params.insert(kind, value);
                    assert(stored(params@) =~= before.insert(kind, value@));
                    at = next;
                },
            }
            done += 1;
        }
        Ok((Params(params), at))
    }
}

/// A value of even kind that is no variable-length integer has the list
/// refused with `InvalidValue` when it is written, wherever it stands in the
/// list, provided that the entries before it can be written.
pub proof fn lemma_params_even_kind_needs_integer(entries: Seq<Entry>, at: int)
    requires
        entries.len() <= VARINT_MAX,
        0 <= at < entries.len(),
        entries[at].0 <= VARINT_MAX,
        entries[at].0 % 2 == 0,
        varint_parse(entries[at].1) is Err,
        entries_error(entries.take(at)) is None,
    ensures
        param_error(entries[at].0, entries[at].1) == Some(EncodeError::InvalidValue),
        params_error(entries) == Some(EncodeError::InvalidValue),
{
    assert(entries.take(at + 1) =~= entries.take(at).push(entries[at]));
    lemma_entries_error_push(entries.take(at), entries[at]);
    lemma_entries_error_prefix(entries, at + 1);
}

/// What is stored when an entry is read back: an integer in its shortest
/// form for an even kind, the bytes themselves for an odd kind.
pub open spec fn param_normal(kind: u64, value: Seq<u8>) -> Seq<u8> {
    if kind % 2 == 0 {
        varint_wire(param_integer(value))
    } else {
        value
    }
}

/// Why reading refuses an entry that was written, given the kinds `seen`
/// before it, if it does.
pub open spec fn param_refusal(kind: u64, value: Seq<u8>, seen: Set<u64>) -> Option<DecodeError> {
    if seen.contains(kind) && kind != AUTHORIZATION_TOKEN {
        Some(DecodeError::DuplicateParameter)
    } else if kind % 2 == 1 && value.len() > MAX_PARAM_SIZE {
        Some(DecodeError::InvalidParameter)
    } else {
        None
    }
}

/// What reading back a written list of entries gives, on top of `got`: the
/// first refusal, or the map that the entries build.
pub open spec fn entries_outcome(entries: Seq<Entry>, got: Map<u64, Seq<u8>>) -> Result<
    Map<u64, Seq<u8>>,
    DecodeError,
>
    decreases entries.len(),
{
    if entries.len() == 0 {
        Ok(got)
    } else {
        match param_refusal(entries[0].0, entries[0].1, got.dom()) {
            Some(e) => Err(e),
            None => entries_outcome(
                entries.drop_first(),
                got.insert(entries[0].0, param_normal(entries[0].0, entries[0].1)),
            ),
        }
    }
}

/// Whether no kind but that of an authorization token occurs twice, among
/// the entries or among them and the kinds `seen` before.
pub open spec fn kinds_admitted(entries: Seq<Entry>, seen: Set<u64>) -> bool {
    forall|i: int|
        0 <= i < entries.len() ==> (#[trigger] entries[i]).0 == AUTHORIZATION_TOKEN || (
        !seen.contains(entries[i].0) && forall|j: int|
            0 <= j < i ==> (#[trigger] entries[j]).0 != entries[i].0)
}

/// One written entry is read as the entry in its normal form, or refused.
pub proof fn lemma_param_read_back(kind: u64, value: Seq<u8>, rest: Seq<u8>, seen: Set<u64>)
    requires
        param_error(kind, value) is None,
    ensures
        param_parse(param_wire(kind, value) + rest, seen) == match param_refusal(
            kind,
            value,
            seen,
        ) {
            Some(e) => Err::<(Entry, nat), DecodeError>(e),
            None => Ok(((kind, param_normal(kind, value)), param_wire(kind, value).len())),
        },
{
    let s = param_wire(kind, value) + rest;
    lemma_varint_lengths(kind);
    if kind % 2 == 0 {
        let n = param_integer(value);
        lemma_varint_parse_bounds(value);
        assert(s =~= varint_wire(kind) + (varint_wire(n) + rest));
        lemma_varint_round_trip(kind, varint_wire(n) + rest);
        lemma_skip_prefix(varint_wire(kind), varint_wire(n) + rest);
        lemma_varint_round_trip(n, rest);
        lemma_varint_lengths(n);
    } else {
        let len = value.len() as u64;
        assert(s =~= varint_wire(kind) + (bytes_wire(value) + rest));
        lemma_varint_round_trip(kind, bytes_wire(value) + rest);
        lemma_skip_prefix(varint_wire(kind), bytes_wire(value) + rest);
        assert(bytes_wire(value) + rest =~= varint_wire(len) + (value + rest));
        lemma_varint_round_trip(len, value + rest);
        lemma_varint_lengths(len);
        if value.len() <= MAX_PARAM_SIZE {
            assert(s.subrange(
                (varint_size(kind) + varint_size(len)) as int,
                (varint_size(kind) + varint_size(len) + value.len()) as int,
            ) =~= value);
        }
    }
}

/// Written entries are read back one after the other, up to the first that
/// is refused.
pub proof fn lemma_entries_read_back(
    head: Seq<u8>,
    entries: Seq<Entry>,
    rest: Seq<u8>,
    got: Map<u64, Seq<u8>>,
)
    requires
        entries_error(entries) is None,
    ensures
        entries_parse(head + entries_wire(entries) + rest, head.len(), entries.len(), got)
            == match entries_outcome(entries, got) {
            Ok(m) => Ok::<(Map<u64, Seq<u8>>, nat), DecodeError>(
                (m, head.len() + entries_wire(entries).len()),
            ),
            Err(e) => Err(e),
        },
    decreases entries.len(),
{
    let s = head + entries_wire(entries) + rest;
    if entries.len() > 0 {
        let first = entries[0];
        let tail = entries.drop_first();
        let wire = param_wire(first.0, first.1);
        assert(s.skip(head.len() as int) =~= wire + (entries_wire(tail) + rest));
        lemma_param_read_back(first.0, first.1, entries_wire(tail) + rest, got.dom());
        if param_refusal(first.0, first.1, got.dom()) is None {
            assert(s =~= (head + wire) + entries_wire(tail) + rest);
            lemma_entries_read_back(
                head + wire,
                tail,
                rest,
                got.insert(first.0, param_normal(first.0, first.1)),
            );
        }
    }
}

/// A written list of parameters is read back as the map that its entries
/// build, or refused for the first entry that reading does not accept.
pub proof fn lemma_params_read_back(entries: Seq<Entry>, rest: Seq<u8>)
    requires
        params_error(entries) is None,
    ensures
        params_parse(params_wire(entries) + rest) == match entries_outcome(
            entries,
            Map::empty(),
        ) {
            Ok(m) => Ok::<(Map<u64, Seq<u8>>, nat), DecodeError>((m, params_wire(entries).len())),
            Err(e) => Err(e),
        },
{
    let count = entries.len() as u64;
    let s = params_wire(entries) + rest;
    lemma_varint_lengths(count);
    assert(s =~= varint_wire(count) + (entries_wire(entries) + rest));
    lemma_varint_round_trip(count, entries_wire(entries) + rest);
    lemma_entries_read_back(varint_wire(count), entries, rest, Map::empty());
}

/// Entries that are faithful, with no kind refused, are read back as they
/// were stored.
pub proof fn lemma_entries_accepted(entries: Seq<Entry>, got: Map<u64, Seq<u8>>)
    requires
        entries_faithful(entries),
        kinds_admitted(entries, got.dom()),
    ensures
        entries_outcome(entries, got) == Ok::<Map<u64, Seq<u8>>, DecodeError>(
            entries_map(entries, got),
        ),
    decreases entries.len(),
{
    if entries.len() > 0 {
        let first = entries[0];
        let tail = entries.drop_first();
        let next = got.insert(first.0, first.1);
        lemma_entries_accepted(tail, next);
    }
}

/// A list of parameters in which no kind but that of an authorization token
/// occurs twice, and every entry is faithful, reads back as the map that its
/// entries build, in whatever order they were written.
pub proof fn lemma_params_round_trip(entries: Seq<Entry>, rest: Seq<u8>)
    requires
        params_error(entries) is None,
        entries_faithful(entries),
        kinds_admitted(entries, Set::empty()),
    ensures
        params_parse(params_wire(entries) + rest) == Ok::<(Map<u64, Seq<u8>>, nat), DecodeError>(
            (entries_map(entries, Map::empty()), params_wire(entries).len()),
        ),
{
    lemma_params_read_back(entries, rest);
    lemma_entries_accepted(entries, Map::empty());
}

/// Reading past entries that are accepted goes on with the rest, on top of
/// the map built so far.
pub proof fn lemma_outcome_skip(entries: Seq<Entry>, got: Map<u64, Seq<u8>>, n: int)
    requires
        0 <= n <= entries.len(),
        entries_faithful(entries.take(n)),
        kinds_admitted(entries.take(n), got.dom()),
    ensures
        entries_outcome(entries, got) == entries_outcome(
            entries.skip(n),
            entries_map(entries.take(n), got),
        ),
    decreases n,
{
    if n == 0 {
        assert(entries.skip(0) =~= entries);
    } else {
        let first = entries[0];
        let tail = entries.drop_first();
        let next = got.insert(first.0, first.1);
        let front = entries.take(n);
        assert(front.drop_first() =~= tail.take(n - 1));
        lemma_outcome_skip(tail, next, n - 1);
        assert(tail.skip(n - 1) =~= entries.skip(n));
    }
}

/// Every kind among the entries is a key of the map that they build.
pub proof fn lemma_entries_map_keys(entries: Seq<Entry>, got: Map<u64, Seq<u8>>, k: u64)
    ensures
        entries_map(entries, got).contains_key(k) <==> got.contains_key(k) || exists|i: int|
            0 <= i < entries.len() && (#[trigger] entries[i]).0 == k,
    decreases entries.len(),
{
    if entries.len() > 0 {
        let tail = entries.drop_first();
        let next = got.insert(entries[0].0, entries[0].1);
        lemma_entries_map_keys(tail, next, k);
        if exists|i: int| 0 <= i < entries.len() && (#[trigger] entries[i]).0 == k {
            let i = choose|i: int| 0 <= i < entries.len() && (#[trigger] entries[i]).0 == k;
            if i > 0 {
                assert(tail[i - 1].0 == k);
            }
        }
    }
}

/// A kind that occurs again, and is not that of an authorization token, has
/// the list refused with `DuplicateParameter`, provided that the entries
/// before the second occurrence are accepted.
pub proof fn lemma_params_duplicate(entries: Seq<Entry>, rest: Seq<u8>, first: int, second: int)
    requires
        params_error(entries) is None,
        0 <= first < second < entries.len(),
        entries[first].0 == entries[second].0,
        entries[second].0 != AUTHORIZATION_TOKEN,
        entries_faithful(entries.take(second)),
        kinds_admitted(entries.take(second), Set::empty()),
    ensures
        params_parse(params_wire(entries) + rest) == Err::<(Map<u64, Seq<u8>>, nat), DecodeError>(
            DecodeError::DuplicateParameter,
        ),
{
    let kind = entries[second].0;
    let front = entries.take(second);
    lemma_params_read_back(entries, rest);
    lemma_outcome_skip(entries, Map::empty(), second);
    lemma_entries_map_keys(front, Map::empty(), kind);
    assert(front[first].0 == kind);
}

/// An entry of odd kind whose value is longer than the limit has the list
/// refused with `InvalidParameter`, provided that the entries before it are
/// accepted and its own kind is.
pub proof fn lemma_params_oversize(entries: Seq<Entry>, rest: Seq<u8>, at: int)
    requires
        params_error(entries) is None,
        0 <= at < entries.len(),
        entries[at].0 % 2 == 1,
        entries[at].1.len() > MAX_PARAM_SIZE,
        entries_faithful(entries.take(at)),
        kinds_admitted(entries.take(at + 1), Set::empty()),
    ensures
        params_parse(params_wire(entries) + rest) == Err::<(Map<u64, Seq<u8>>, nat), DecodeError>(
            DecodeError::InvalidParameter,
        ),
{
    let kind = entries[at].0;
    let front = entries.take(at);
    let upto = entries.take(at + 1);
    lemma_params_read_back(entries, rest);
    lemma_outcome_skip(entries, Map::empty(), at);
    lemma_entries_map_keys(front, Map::empty(), kind);
    assert(upto[at] == entries[at]);
}

/// A kind that is not among the entries is left as it was in the map that
/// they are read into.
pub proof fn lemma_entries_map_miss(entries: Seq<Entry>, got: Map<u64, Seq<u8>>, k: u64)
    requires
        forall|i: int| 0 <= i < entries.len() ==> (#[trigger] entries[i]).0 != k,
    ensures
        entries_map(entries, got).contains_key(k) == got.contains_key(k),
        got.contains_key(k) ==> entries_map(entries, got)[k] == got[k],
    decreases entries.len(),
{
    if entries.len() > 0 {
        let tail = entries.drop_first();
        lemma_entries_map_miss(tail, got.insert(entries[0].0, entries[0].1), k);
    }
}

/// An entry whose kind does not occur again behind it is what the map holds
/// for that kind.
pub proof fn lemma_entries_map_hit(entries: Seq<Entry>, got: Map<u64, Seq<u8>>, at: int)
    requires
        0 <= at < entries.len(),
        forall|j: int| at < j < entries.len() ==> (#[trigger] entries[j]).0 != entries[at].0,
    ensures
        entries_map(entries, got).contains_key(entries[at].0),
        entries_map(entries, got)[entries[at].0] == entries[at].1,
    decreases entries.len(),
{
    let tail = entries.drop_first();
    let next = got.insert(entries[0].0, entries[0].1);
    if at == 0 {
        lemma_entries_map_miss(tail, next, entries[0].0);
    } else {
        lemma_entries_map_hit(tail, next, at - 1);
    }
}

/// Entries that list a map once build that map, and none of them is refused
/// for its kind.
pub proof fn lemma_enumerated_map(entries: Seq<Entry>, m: Map<u64, Seq<u8>>)
    requires
        enumerates(entries, m),
    ensures
        entries_map(entries, Map::empty()) == m,
        kinds_admitted(entries, Set::empty()),
{
    let built = entries_map(entries, Map::empty());
    assert forall|k: u64|
        (#[trigger] built.dom().contains(k)) == m.dom().contains(k) && (m.dom().contains(k)
            ==> built[k] == m[k]) by {
        if m.contains_key(k) {
            let i = choose|i: int| 0 <= i < entries.len() && (#[trigger] entries[i]).0 == k;
            lemma_entries_map_hit(entries, Map::empty(), i);
        } else {
            lemma_entries_map_miss(entries, Map::empty(), k);
        }
    }
}

impl RoundTrip for Params {
    /// Every entry reads back as it was stored.
    open spec fn faithful(&self) -> bool {
        forall|k: u64| self@.contains_key(k) ==> param_faithful(k, #[trigger] self@[k])
    }

    proof fn lemma_round_trip(&self, rest: Seq<u8>) {
        let walk = self.walk();
        self.lemma_walk();
        lemma_enumerated_map(walk, self@);
        lemma_params_round_trip(walk, rest);
    }
}

} // verus!
