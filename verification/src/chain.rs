//! The assembler: the only writer of new blocks.
//!
//! One assembly cycle pops pending transactions, scores the new height with
//! the deterministic network, builds the hash-linked block and commits it to
//! the ledger. The caller runs the cycle on its cadence and broadcasts the
//! committed block's bytes; persistence always precedes broadcast, and a
//! broadcast failure never rolls a commit back. A forbidden height and a
//! ledger failure are fatal: the cycle returns a typed fatal error for a
//! supervisor to act on, rather than terminating the process itself.

use vstd::prelude::*;
use vstd::math::min;
use crate::block::{
    Block, FatalError, forbidden_height, is_forbidden_height, block_hash_consistent, BlockModel,
    eternal_signature_spec,
};
use crate::snn::{SNN, spec_score};
use crate::storage::{
    Storage, ledger_after_commit, stored_height, stored_last_hash, lemma_commit_pointers,
};
use crate::transaction::Mempool;

verus! {

/// The most transactions one block takes.
pub const MAX_BLOCK_TXS: usize = 10;

/// Required byte length of the genesis reader artifact.
pub const GENESIS_SIZE: u64 = 4089;

/// Required byte length of the air-gap artifact.
pub const AIR_GAP_SIZE: u64 = 8185;

/// Whether the two membrane artifacts have their required sizes and end in
/// the seven-byte integrity signature.
pub open spec fn spec_membrane_valid(genesis: Seq<u8>, air_gap: Seq<u8>) -> bool {
    &&& genesis.len() == GENESIS_SIZE
    &&& air_gap.len() == AIR_GAP_SIZE
    &&& genesis.subrange(4082, 4089) == eternal_signature_spec()
    &&& air_gap.subrange(8178, 8185) == eternal_signature_spec()
}

/// The consensus engine: mempool, scorer and ledger, driven by one owner.
/// Exactly one assembler may be bound to a ledger; blocks are produced
/// strictly sequentially, each hash-linked to its predecessor.
pub struct PappapChain {
    pub storage: Storage,
    pub mempool: Mempool,
    pub snn: SNN,
    /// This node's miner identifier, stamped into every block it builds.
    pub miner: Vec<u8>,
}

impl PappapChain {
    /// Binds the engine's parts together.
    pub fn new(storage: Storage, mempool: Mempool, snn: SNN, miner: Vec<u8>) -> (r: PappapChain)
        ensures
            r.storage.view() == storage.view(),
            r.mempool@ == mempool@,
            r.snn@ == snn@,
            r.miner@ == miner@,
    {
        PappapChain { storage, mempool, snn, miner }
    }

    /// Checks the membrane artifacts: exact sizes and the integrity
    /// signature in the last seven bytes of each. Reading the artifacts from
    /// disk is the caller's task.
    pub fn validate_holy_membrane(genesis: &Vec<u8>, air_gap: &Vec<u8>) -> (r: bool)
        ensures
            r == spec_membrane_valid(genesis@, air_gap@),
    {
        if genesis.len() != 4089 || air_gap.len() != 8185 {
            return false;
        }
        let mut i: usize = 0;
        while i < 7
            invariant
                i <= 7,
                genesis@.len() == 4089,
                air_gap@.len() == 8185,
                forall|j: int| 0 <= j < i ==> #[trigger] genesis@[4082 + j] == 7u8,
                forall|j: int| 0 <= j < i ==> #[trigger] air_gap@[8178 + j] == 7u8,
            decreases 7 - i,
        {
            if genesis[4082 + i] != 7u8 || air_gap[8178 + i] != 7u8 {
                proof {
                    if genesis@.subrange(4082, 4089) == eternal_signature_spec()
                        && air_gap@.subrange(8178, 8185) == eternal_signature_spec() {
                        assert(genesis@.subrange(4082, 4089)[i as int] == 7u8);
                        assert(air_gap@.subrange(8178, 8185)[i as int] == 7u8);
                    }
                }
                return false;
            }
            i = i + 1;
        }
        proof {
            assert forall|k: int| 0 <= k < 7 implies genesis@.subrange(4082, 4089)[k]
                == eternal_signature_spec()[k] by {
                assert(genesis@[4082 + k] == 7u8);
            }
            assert forall|k: int| 0 <= k < 7 implies air_gap@.subrange(8178, 8185)[k]
                == eternal_signature_spec()[k] by {
                assert(air_gap@[8178 + k] == 7u8);
            }
            assert(genesis@.subrange(4082, 4089) =~= eternal_signature_spec());
            assert(air_gap@.subrange(8178, 8185) =~= eternal_signature_spec());
        }
        true
    }

    /// One assembly cycle. With an empty mempool the engine idles and
    /// nothing changes. Otherwise it pops up to `MAX_BLOCK_TXS` pending
    /// transactions in arrival order, scores the next height, builds the
    /// block with `index = height + 1` and `prev_hash = last_hash`, and
    /// commits it durably. The committed block is returned for broadcast.
    ///
    /// Fatal conditions are returned, never skipped: a forbidden next height
    /// (checked before anything is consumed), an exhausted index space, and
    /// any ledger failure.
    pub fn assemble_once(&mut self, timestamp: u64) -> (r: Result<Option<Block>, FatalError>)
        requires
            old(self).mempool.wf(),
        ensures
            final(self).mempool.wf(),
            final(self).miner@ == old(self).miner@,
            old(self).mempool@.len() == 0 ==> r == Ok::<Option<Block>, FatalError>(None)
                && *final(self) == *old(self),
            r == Err::<Option<Block>, FatalError>(FatalError::ForbiddenHeight)
                ==> forbidden_height((stored_height(old(self).storage.view()) + 1) as u64)
                && *final(self) == *old(self),
            r == Err::<Option<Block>, FatalError>(FatalError::HeightExhausted)
                ==> stored_height(old(self).storage.view()) == u64::MAX
                && *final(self) == *old(self),
            r == Err::<Option<Block>, FatalError>(FatalError::LedgerWriteFailure)
                ==> (*final(self) == *old(self)) || ({
                    let m0 = old(self).storage.view();
                    let popped = min(MAX_BLOCK_TXS as int, old(self).mempool@.len() as int);
                    &&& final(self).mempool@ == old(self).mempool@.skip(popped)
                    &&& final(self).snn@ == spec_score(
                        old(self).snn@,
                        (stored_height(m0) + 1) as u64,
                    ).0
                }),
            match r {
                Ok(Some(b)) => {
                    let m0 = old(self).storage.view();
                    let popped = min(MAX_BLOCK_TXS as int, old(self).mempool@.len() as int);
                    &&& old(self).mempool@.len() > 0
                    &&& b.index == stored_height(m0) + 1
                    &&& !forbidden_height(b.index)
                    &&& b.prev_hash@ == stored_last_hash(m0)
                    &&& b.timestamp == timestamp
                    &&& b.miner@ == old(self).miner@
                    &&& b.eternal_signature@ == eternal_signature_spec()
                    &&& b.forbidden_gene_checked == true
                    &&& b.transactions@ == old(self).mempool@.take(popped)
                    &&& b.spike_score == spec_score(old(self).snn@, b.index).1
                    &&& block_hash_consistent(b@)
                    &&& final(self).storage.view() == ledger_after_commit(m0, b@)
                    &&& final(self).mempool@ == old(self).mempool@.skip(popped)
                    &&& final(self).snn@ == spec_score(old(self).snn@, b.index).0
                },
                Ok(None) => old(self).mempool@.len() == 0,
                Err(e) => e == FatalError::ForbiddenHeight || e == FatalError::LedgerWriteFailure
                    || e == FatalError::HeightExhausted,
            },
    {
        if self.mempool.size() == 0 {
            return Ok(None);
        }
        let height = match self.storage.get_height() {
            Ok(h) => h,
            Err(_) => return Err(FatalError::LedgerWriteFailure),
        };
        if height == u64::MAX {
            return Err(FatalError::HeightExhausted);
        }
        let index = height + 1;
        if is_forbidden_height(index) {
            return Err(FatalError::ForbiddenHeight);
        }
        let prev_hash = match self.storage.get_last_hash() {
            Ok(h) => h,
            Err(_) => return Err(FatalError::LedgerWriteFailure),
        };
        let txs = self.mempool.pop_n(MAX_BLOCK_TXS);
        let score = self.snn.score(index);
        let block = match Block::new(
            index,
            prev_hash,
            txs,
            clone_miner(&self.miner),
            score,
            timestamp,
        ) {
            Ok(b) => b,
            Err(e) => {
                proof {
                    assert(false);
                }
                return Err(e);
            },
        };
        match self.storage.save_block(&block) {
            Ok(()) => Ok(Some(block)),
            Err(_) => Err(FatalError::LedgerWriteFailure),
        }
    }
}

/// A fresh copy of the miner identifier.
fn clone_miner(v: &Vec<u8>) -> (r: Vec<u8>)
    ensures
        r@ == v@,
{
    let mut out: Vec<u8> = Vec::new();
    let mut i: usize = 0;
    while i < v.len()
        invariant
            i <= v@.len(),
            out@ == v@.take(i as int),
        decreases v@.len() - i,
    {
        out.push(v[i]);
        i = i + 1;
        assert(out@ =~= v@.take(i as int));
    }
    assert(out@ =~= v@);
    out
}

/// Law: blocks chain. For any block committed on top of a ledger state, a
/// successor built against the committed state carries the predecessor's
/// hash as its `prev_hash` and the next index: `b2.prev_hash == b1.hash` and
/// `b2.index == b1.index + 1`.
pub proof fn lemma_chain_link(m0: Map<Seq<u8>, Seq<u8>>, b1: BlockModel, b2: BlockModel)
    requires
        b2.index == stored_height(ledger_after_commit(m0, b1)) + 1,
        b2.prev_hash == stored_last_hash(ledger_after_commit(m0, b1)),
    ensures
        b2.index == b1.index + 1,
        b2.prev_hash == b1.hash,
{
    lemma_commit_pointers(m0, b1);
}

} // verus!
