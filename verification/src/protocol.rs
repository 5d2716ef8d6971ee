//! The protocols that the payload of a layer can be handed to, and the
//! dissector of last resort.

use crate::value::{outcome_of, push_named, DissectResult, NamedValues, Outcome, Tree, Val};
use vstd::prelude::*;

verus! {

/// A protocol that a payload can be dissected as. The tables of the layers
/// map the codes that they find in their headers to one of these.
#[derive(Clone, Copy, Debug, PartialEq, Eq)]
pub enum Protocol {
    /// Internet Protocol, version 4.
    Ip,
    /// Transmission Control Protocol.
    Tcp,
    /// No interpretation: the bytes as they are.
    Raw,
}

/// What the dissector of last resort makes of any bytes: an object whose one
/// child holds them.
pub open spec fn raw_data(data: Seq<u8>) -> Outcome {
    Ok(Box::new(Tree::Object(seq![("raw data"@, Tree::Bytes(data))])))
}

impl Protocol {
    /// How far the protocol stands above raw bytes. A layer hands its payload
    /// only to protocols that stand lower than itself, so no dissection nests
    /// without end.
    pub open spec fn layer(self) -> nat {
        match self {
            Protocol::Raw => 0,
            Protocol::Tcp => 1,
            Protocol::Ip => 2,
        }
    }

    /// The outcome of dissecting `data` as this protocol.
    pub open spec fn dissection(self, data: Seq<u8>) -> Outcome
        decreases self.layer(), 1int,
    {
        match self {
            Protocol::Ip => crate::ip::packet(data),
            Protocol::Tcp => crate::ip::tcp::segment(data),
            Protocol::Raw => raw_data(data),
        }
    }

    /// Dissects `data` as this protocol.
    pub fn dissect<'data>(self, data: &'data [u8]) -> (result: DissectResult<'data>)
        ensures
            outcome_of(result) == self.dissection(data@),
        decreases self.layer(), 1int,
    {
        match self {
            Protocol::Ip => crate::ip::dissect(data),
            Protocol::Tcp => crate::ip::tcp::dissect(data),
            Protocol::Raw => raw(data),
        }
    }
}

/// Dissection is a function of the bytes: two outcomes of dissecting the
/// same bytes as the same protocol are the same outcome, and two trees among
/// them are structurally equal and have the same text, on one line and on
/// several.
pub proof fn lemma_dissect_repeats(
    protocol: Protocol,
    data: Seq<u8>,
    first: DissectResult,
    second: DissectResult,
    indent: nat,
)
    requires
        outcome_of(first) == protocol.dissection(data),
        outcome_of(second) == protocol.dissection(data),
    ensures
        outcome_of(first) == outcome_of(second),
        first matches Ok(one) ==> (second matches Ok(other) && one@ == other@ && one@.text()
            == other@.text() && one@.pretty(indent) == other@.pretty(indent)),
        first matches Err(one) ==> (second matches Err(other) && one@ == other@ && one@.text()
            == other@.text()),
{
}

/// The dissector of last resort takes every input, the empty one too.
pub proof fn lemma_raw_never_fails(data: Seq<u8>)
    ensures
        raw_data(data) is Ok,
        Protocol::Raw.dissection(data) is Ok,
{
}

/// Dissector of last resort: store raw bytes without interpretation.
pub fn raw<'data>(data: &'data [u8]) -> (result: DissectResult<'data>)
    ensures
        outcome_of(result) == raw_data(data@),
{
    let mut obj: NamedValues<'data> = Vec::new();
    proof {
        assert(crate::value::trees(obj@) =~= Seq::empty());
    }
    push_named(&mut obj, "raw data", Val::Bytes(data));
    Ok(Box::new(Val::Object(obj)))
}

} // verus!
