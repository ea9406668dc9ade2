//! The consensus messages carried over the gossip topic. Chain-level
//! values (addresses, hashes, transactions) travel through this core as
//! plain byte values; higher layers give them meaning.

use vstd::prelude::*;

verus! {

/// A proposed block, as gossiped on the consensus topic.
#[derive(Debug, Clone, PartialEq, Eq)]
pub struct Proposal {
    /// Chain height the proposal is for.
    pub height: u64,
    /// The proposer's contract address, as its 32-byte field-element
    /// form.
    pub proposer: Vec<u8>,
    /// The proposed transactions, each in its encoded form.
    pub transactions: Vec<Vec<u8>>,
    /// The hash of the proposed block, 32 bytes.
    pub block_hash: Vec<u8>,
}

impl Proposal {
    /// Addresses and hashes are 32-byte field elements.
    pub open spec fn wf(self) -> bool {
        self.proposer@.len() == 32 && self.block_hash@.len() == 32
    }
}

/// A message on the consensus topic.
#[derive(Debug, Clone, PartialEq, Eq)]
pub enum ConsensusMessage {
    Proposal(Proposal),
}

impl ConsensusMessage {
    pub open spec fn wf(self) -> bool {
        match self {
            ConsensusMessage::Proposal(p) => p.wf(),
        }
    }

    /// The height a message speaks about.
    pub fn height(&self) -> (h: u64)
        ensures
            h == (match *self {
                ConsensusMessage::Proposal(p) => p.height,
            }),
    {
        match self {
            ConsensusMessage::Proposal(p) => p.height,
        }
    }
}

} // verus!
