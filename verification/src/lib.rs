//! Pre-signature process manager of a threshold-ECDSA signing subsystem.
//!
//! A committee of replicas builds transcripts from dealings and from the
//! supports that receivers give to dealings. On each call the engine of one
//! replica reads a snapshot of the latest finalized block and of the artifact
//! pool and proposes changes to the pool: it sends its own dealings, triages
//! the dealings of its peers, supports the dealings that it received, and
//! triages the supports of its peers. One of these four phases is served per
//! call, in turn.
//!
//! The engine decides; the cryptographic capability answers. Every contract
//! states the changes as a function of the pool, the block and the answers,
//! and holds for whatever the capability answers.

pub mod types;
pub mod params;
pub mod block_reader;
pub mod pool;
pub mod crypto;
pub mod reason;
pub mod action;
pub mod batch;
pub mod verdict;
pub mod changes;
pub mod round_robin;
pub mod tick;
pub mod pre_signer;
pub mod origin;
pub mod laws;
pub mod apply;
pub mod idempotence;
