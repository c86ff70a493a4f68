//! The message that accepts a subscription to a namespace.

use vstd::prelude::*;
use crate::coding::error::{DecodeError, EncodeError};
use crate::coding::traits::{Decode, Encode, RoundTrip};

verus! {

/// Sent in answer to a subscription to a namespace, to accept it.
#[derive(Debug, PartialEq, Eq)]
pub struct SubscribeNamespaceOk {
    /// The namespace prefix that was asked for, echoed back.
    pub namespace_prefix: String,
}

/// What a subscribe-namespace-ok message says.
pub struct SubscribeNamespaceOkView {
    pub namespace_prefix: Seq<char>,
}

impl View for SubscribeNamespaceOk {
    type V = SubscribeNamespaceOkView;

    open spec fn view(&self) -> SubscribeNamespaceOkView {
        SubscribeNamespaceOkView {
            namespace_prefix: self.namespace_prefix@,
        }
    }
}

impl Clone for SubscribeNamespaceOk {
    fn clone(&self) -> (r: Self)
        ensures
            r@ == self@,
    {
        SubscribeNamespaceOk {
            namespace_prefix: self.namespace_prefix.clone(),
        }
    }
}

/// Reads a subscribe-namespace-ok message off the front of `s`.
pub open spec fn subscribe_namespace_ok_parse(
    s: Seq<u8>,
) -> Result<(SubscribeNamespaceOkView, nat), DecodeError> {
    match String::parse(s) {
        Err(e) => Err(e),
        Ok((namespace_prefix, n0)) => Ok(
            (SubscribeNamespaceOkView { namespace_prefix }, n0),
        ),
    }
}

impl Encode for SubscribeNamespaceOk {
    open spec fn wire(&self) -> Seq<u8> {
        self.namespace_prefix.wire()
    }

    open spec fn encode_error(&self) -> Option<EncodeError> {
        self.namespace_prefix.encode_error()
    }

    fn write(&self, out: &mut Vec<u8>) -> (r: Result<(), EncodeError>) {
        self.namespace_prefix.write(out)
    }
}

impl Decode for SubscribeNamespaceOk {
    open spec fn parse(s: Seq<u8>) -> Result<(SubscribeNamespaceOkView, nat), DecodeError> {
        subscribe_namespace_ok_parse(s)
    }

    fn read(data: &[u8], pos: usize) -> (r: Result<(Self, usize), DecodeError>) {
        let (namespace_prefix, at1) = String::read(data, pos)?;
        Ok((SubscribeNamespaceOk { namespace_prefix }, at1))
    }
}

impl RoundTrip for SubscribeNamespaceOk {
    open spec fn faithful(&self) -> bool {
        self.namespace_prefix.faithful()
    }

    proof fn lemma_round_trip(&self, rest: Seq<u8>) {
        self.namespace_prefix.lemma_round_trip(rest);
    }
}

} // verus!
