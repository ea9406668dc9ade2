//! The protocol registry: a total, injective map between the supported
//! SQMR protocols and their wire names.

use vstd::prelude::*;

verus! {

/// The closed set of SQMR protocols this node supports. For each tag there
/// is exactly one wire name, carried by [`Protocol::as_str`].
#[derive(Debug, Clone, Copy, PartialEq, Eq, Structural, Hash)]
pub enum Protocol {
    SignedBlockHeader,
    StateDiff,
    Transaction,
}

/// The wire name of a protocol tag, as a sequence of characters.
pub open spec fn wire_name(p: Protocol) -> Seq<char> {
    match p {
        Protocol::SignedBlockHeader => "/starknet/headers/1"@,
        Protocol::StateDiff => "/starknet/state_diffs/1"@,
        Protocol::Transaction => "/starknet/transactions/1"@,
    }
}

/// The tag whose wire name is `s`, if any: the inverse of [`wire_name`].
pub open spec fn tag_of_wire(s: Seq<char>) -> Option<Protocol> {
    if s == wire_name(Protocol::SignedBlockHeader) {
        Some(Protocol::SignedBlockHeader)
    } else if s == wire_name(Protocol::StateDiff) {
        Some(Protocol::StateDiff)
    } else if s == wire_name(Protocol::Transaction) {
        Some(Protocol::Transaction)
    } else {
        None
    }
}

impl Protocol {
    /// The wire name of this protocol: a slash-delimited string with a
    /// major version suffix.
    pub fn as_str(&self) -> (s: &'static str)
        ensures
            s@ == wire_name(*self),
    {
        match self {
            Protocol::SignedBlockHeader => "/starknet/headers/1",
            Protocol::StateDiff => "/starknet/state_diffs/1",
            Protocol::Transaction => "/starknet/transactions/1",
        }
    }

    /// Converts a negotiated wire name back to its protocol tag. Unknown
    /// names are rejected; the error keeps the offending name.
    pub fn try_from_wire(s: &str) -> (r: Result<Protocol, UnknownProtocolConversionError>)
        ensures
            r is Ok <==> tag_of_wire(s@) is Some,
            r is Ok ==> tag_of_wire(s@) == Some(r->Ok_0),
            r is Err ==> r->Err_0@ == s@,
    {
        let owned: String = s.to_owned();
        if owned == Protocol::SignedBlockHeader.as_str().to_owned() {
            Ok(Protocol::SignedBlockHeader)
        } else if owned == Protocol::StateDiff.as_str().to_owned() {
            Ok(Protocol::StateDiff)
        } else if owned == Protocol::Transaction.as_str().to_owned() {
            Ok(Protocol::Transaction)
        } else {
            Err(UnknownProtocolConversionError { name: owned })
        }
    }
}

/// A wire name was negotiated that matches no supported protocol.
#[derive(Debug)]
pub struct UnknownProtocolConversionError {
    name: String,
}

impl View for UnknownProtocolConversionError {
    type V = Seq<char>;

    closed spec fn view(&self) -> Seq<char> {
        self.name@
    }
}

impl UnknownProtocolConversionError {
    /// The wire name that could not be converted.
    pub fn unknown_name(&self) -> (s: &String)
        ensures
            s@ == self@,
    {
        &self.name
    }

    /// A human-readable description of the failure.
    pub fn message(&self) -> (s: String)
        ensures
            s@ == "Unknown protocol: "@ + self@,
    {
        let mut out: String = "Unknown protocol: ".to_owned();
        out.append(self.name.as_str());
        out
    }
}

/// Converting a tag to its wire name and back yields the same tag: the
/// registry is a bijection onto the set of supported wire names.
pub proof fn lemma_wire_name_round_trip(p: Protocol)
    ensures
        tag_of_wire(wire_name(p)) == Some(p),
{
    reveal_strlit("/starknet/headers/1");
    reveal_strlit("/starknet/state_diffs/1");
    reveal_strlit("/starknet/transactions/1");
    assert(wire_name(Protocol::SignedBlockHeader).len() == 19);
    assert(wire_name(Protocol::StateDiff).len() == 23);
    assert(wire_name(Protocol::Transaction).len() == 24);
}

/// Distinct tags have distinct wire names.
pub proof fn lemma_wire_name_injective(p1: Protocol, p2: Protocol)
    ensures
        wire_name(p1) == wire_name(p2) ==> p1 == p2,
{
    lemma_wire_name_round_trip(p1);
    lemma_wire_name_round_trip(p2);
}

} // verus!
