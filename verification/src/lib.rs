//! Core logic of a peer-to-peer networking node for a Starknet-family
//! network: the protocol registry, configuration, SQMR (single query,
//! multiple responses) session state machines, peer management, gossip
//! queues, the server-side query executor, and the network manager that
//! ties them together. All decisions are pure functions over plain data;
//! the transport itself is driven by an unverified runner.

pub mod config;
pub mod consensus;
pub mod discovery;
pub mod executor;
pub mod gossip;
pub mod manager;
pub mod peers;
pub mod protocol;
pub mod seqs;
pub mod sqmr;
pub mod wire;
