//! Consensus engine for a small permissionless ledger whose block-acceptance
//! rule substitutes a deterministic neural computation for proof-of-work.
//!
//! The core pieces are a deterministic fixed-point spiking-network scorer, a
//! pending-transaction pool, the block assembler, and the append-only ledger.
//! Everything on the consensus path is bit-exact: fixed-point arithmetic with
//! a saturating overflow policy, an explicit canonical byte encoding for
//! blocks and transactions, and a hash chain over that encoding.

pub mod block;
pub mod chain;
pub mod codec;
pub mod constants;
pub mod crypto;
pub mod ethics;
pub mod evolution;
pub mod fixed_point;
pub mod governance;
pub mod persona;
pub mod snn;
pub mod storage;
pub mod trainer;
pub mod transaction;
