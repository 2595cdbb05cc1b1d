//! The durable, append-only ledger.
//!
//! Blocks live in an embedded key-value store. The key space is explicit:
//! `block:` followed by the index as eight big-endian bytes maps to the
//! block's canonical wire encoding; `chain_height` holds the latest index as
//! eight big-endian bytes; `last_hash` holds the latest block's hash;
//! `fact:<key>` holds the non-consensus fact cache. A block commit writes the
//! block entry, the height and the last hash together and then flushes, so a
//! committed height is always backed by its block.
//!
//! The store itself is an outside crate; its contents are modelled as a map
//! from byte strings to byte strings, and every method's contract is stated
//! over that map.

use vstd::prelude::*;
use crate::block::{Block, BlockModel, block_bytes, spec_deserialize, deserialize};
use crate::codec::{u64_be, u64_from_be8, push_u64_be};

verus! {

#[verifier::external_type_specification]
#[verifier::external_body]
pub struct ExDb(sled::Db);

#[verifier::external_type_specification]
#[verifier::external_body]
pub struct ExSledError(sled::Error);

/// What the store holds: a map from key bytes to value bytes.
pub uninterp spec fn db_view(db: sled::Db) -> Map<Seq<u8>, Seq<u8>>;

/// Relies on sled::Tree::insert: on success the key maps to the new value
/// and every other key is unchanged.
#[verifier::external_body]
fn db_insert(db: &mut sled::Db, key: &Vec<u8>, value: Vec<u8>) -> (r: Result<(), sled::Error>)
    ensures
        r is Ok ==> db_view(*final(db)) == db_view(*old(db)).insert(key@, value@),
{
    match db.insert(key.as_slice(), value) {
        Ok(_) => Ok(()),
        Err(e) => Err(e),
    }
}

/// Relies on sled::Tree::get: returns the value stored under the key, if any.
#[verifier::external_body]
fn db_get(db: &sled::Db, key: &Vec<u8>) -> (r: Result<Option<Vec<u8>>, sled::Error>)
    ensures
        match r {
            Ok(Some(v)) => db_view(*db).contains_key(key@) && v@ == db_view(*db)[key@],
            Ok(None) => !db_view(*db).contains_key(key@),
            Err(_) => true,
        },
{
    match db.get(key.as_slice()) {
        Ok(Some(iv)) => Ok(Some(iv.to_vec())),
        Ok(None) => Ok(None),
        Err(e) => Err(e),
    }
}

/// Relies on sled::Tree::flush: synchronously writes dirty buffers to disk;
/// the logical contents do not change.
#[verifier::external_body]
fn db_flush(db: &mut sled::Db) -> (r: Result<usize, sled::Error>)
    ensures
        db_view(*final(db)) == db_view(*old(db)),
{
    db.flush()
}

/// The ledger failed to read or write its store.
#[derive(Clone, Copy, Debug, PartialEq, Eq, Structural)]
pub struct LedgerError;

/// The key under which a block is stored: `block:` then the index, big
/// endian.
pub open spec fn spec_block_key(index: u64) -> Seq<u8> {
    seq![0x62u8, 0x6cu8, 0x6fu8, 0x63u8, 0x6bu8, 0x3au8] + u64_be(index)
}

/// The key holding the chain height: `chain_height`.
pub open spec fn spec_height_key() -> Seq<u8> {
    seq![
        0x63u8, 0x68u8, 0x61u8, 0x69u8, 0x6eu8, 0x5fu8, 0x68u8, 0x65u8, 0x69u8, 0x67u8, 0x68u8,
        0x74u8,
    ]
}

/// The key holding the latest block hash: `last_hash`.
pub open spec fn spec_last_hash_key() -> Seq<u8> {
    seq![0x6cu8, 0x61u8, 0x73u8, 0x74u8, 0x5fu8, 0x68u8, 0x61u8, 0x73u8, 0x68u8]
}

/// The key under which a fact is stored: `fact:` then the caller's key.
pub open spec fn spec_fact_key(key: Seq<u8>) -> Seq<u8> {
    seq![0x66u8, 0x61u8, 0x63u8, 0x74u8, 0x3au8] + key
}

/// The height recorded in a store: the eight-byte big-endian value under the
/// height key, or zero when absent or malformed.
pub open spec fn stored_height(m: Map<Seq<u8>, Seq<u8>>) -> u64 {
    if m.contains_key(spec_height_key()) && m[spec_height_key()].len() == 8 {
        let v = m[spec_height_key()];
        u64_from_be8(v[0], v[1], v[2], v[3], v[4], v[5], v[6], v[7])
    } else {
        0
    }
}

/// The genesis predecessor hash: sixty-four ASCII zeros.
pub open spec fn spec_genesis_hash() -> Seq<u8> {
    Seq::new(64, |i: int| 0x30u8)
}

/// The last hash recorded in a store, or the genesis value when absent.
pub open spec fn stored_last_hash(m: Map<Seq<u8>, Seq<u8>>) -> Seq<u8> {
    if m.contains_key(spec_last_hash_key()) {
        m[spec_last_hash_key()]
    } else {
        spec_genesis_hash()
    }
}

/// The store's contents after committing one block: the block entry, the
/// height and the last hash, updated as one unit.
pub open spec fn ledger_after_commit(m: Map<Seq<u8>, Seq<u8>>, b: BlockModel) -> Map<Seq<u8>, Seq<u8>> {
    m.insert(spec_block_key(b.index), block_bytes(b)).insert(
        spec_height_key(),
        u64_be(b.index),
    ).insert(spec_last_hash_key(), b.hash)
}

/// After a commit the recorded height is the block's index and the recorded
/// last hash is the block's hash: the three entries stand or fall together.
pub proof fn lemma_commit_pointers(m: Map<Seq<u8>, Seq<u8>>, b: BlockModel)
    ensures
        stored_height(ledger_after_commit(m, b)) == b.index,
        stored_last_hash(ledger_after_commit(m, b)) == b.hash,
        ledger_after_commit(m, b).contains_key(spec_block_key(b.index)),
        ledger_after_commit(m, b)[spec_block_key(b.index)] == block_bytes(b),
{
    let after = ledger_after_commit(m, b);
    assert(spec_height_key().len() == 12);
    assert(spec_last_hash_key().len() == 9);
    assert(spec_block_key(b.index).len() == 14);
    assert(after[spec_height_key()] == u64_be(b.index));
    crate::codec::lemma_u64_be_roundtrip(b.index);
}

/// Law: the ledger is append-only. Committing a block never touches the
/// entry of any other block: a block once committed is immutable, and a
/// commit can only add the entry at its own index.
pub proof fn lemma_commit_preserves_blocks(m: Map<Seq<u8>, Seq<u8>>, b: BlockModel, i: u64)
    requires
        i != b.index,
    ensures
        ledger_after_commit(m, b).contains_key(spec_block_key(i)) == m.contains_key(
            spec_block_key(i),
        ),
        m.contains_key(spec_block_key(i)) ==> ledger_after_commit(m, b)[spec_block_key(i)]
            == m[spec_block_key(i)],
{
    lemma_block_key_injective(i, b.index);
    assert(spec_height_key().len() == 12);
    assert(spec_last_hash_key().len() == 9);
    assert(spec_block_key(i).len() == 14);
}

/// Distinct indices get distinct block keys.
proof fn lemma_block_key_injective(i: u64, j: u64)
    requires
        i != j,
    ensures
        spec_block_key(i) != spec_block_key(j),
{
    if spec_block_key(i) == spec_block_key(j) {
        let ki = spec_block_key(i);
        let kj = spec_block_key(j);
        assert(ki[6] == u64_be(i)[0] && kj[6] == u64_be(j)[0]);
        assert(ki[7] == u64_be(i)[1] && kj[7] == u64_be(j)[1]);
        assert(ki[8] == u64_be(i)[2] && kj[8] == u64_be(j)[2]);
        assert(ki[9] == u64_be(i)[3] && kj[9] == u64_be(j)[3]);
        assert(ki[10] == u64_be(i)[4] && kj[10] == u64_be(j)[4]);
        assert(ki[11] == u64_be(i)[5] && kj[11] == u64_be(j)[5]);
        assert(ki[12] == u64_be(i)[6] && kj[12] == u64_be(j)[6]);
        assert(ki[13] == u64_be(i)[7] && kj[13] == u64_be(j)[7]);
        crate::codec::lemma_u64_be_roundtrip(i);
        crate::codec::lemma_u64_be_roundtrip(j);
        assert(i == j);
    }
}

/// The builders of the four key shapes.
fn block_key_bytes(index: u64) -> (r: Vec<u8>)
    ensures
        r@ == spec_block_key(index),
{
    let mut v: Vec<u8> = Vec::new();
    v.push(0x62u8);
    v.push(0x6cu8);
    v.push(0x6fu8);
    v.push(0x63u8);
    v.push(0x6bu8);
    v.push(0x3au8);
    push_u64_be(&mut v, index);
    proof {
        assert(v@ =~= spec_block_key(index));
    }
    v
}

fn height_key_bytes() -> (r: Vec<u8>)
    ensures
        r@ == spec_height_key(),
{
    let mut v: Vec<u8> = Vec::new();
    v.push(0x63u8);
    v.push(0x68u8);
    v.push(0x61u8);
    v.push(0x69u8);
    v.push(0x6eu8);
    v.push(0x5fu8);
    v.push(0x68u8);
    v.push(0x65u8);
    v.push(0x69u8);
    v.push(0x67u8);
    v.push(0x68u8);
    v.push(0x74u8);
    proof {
        assert(v@ =~= spec_height_key());
    }
    v
}

fn last_hash_key_bytes() -> (r: Vec<u8>)
    ensures
        r@ == spec_last_hash_key(),
{
    let mut v: Vec<u8> = Vec::new();
    v.push(0x6cu8);
    v.push(0x61u8);
    v.push(0x73u8);
    v.push(0x74u8);
    v.push(0x5fu8);
    v.push(0x68u8);
    v.push(0x61u8);
    v.push(0x73u8);
    v.push(0x68u8);
    proof {
        assert(v@ =~= spec_last_hash_key());
    }
    v
}

fn fact_key_bytes(key: &Vec<u8>) -> (r: Vec<u8>)
    ensures
        r@ == spec_fact_key(key@),
{
    let mut v: Vec<u8> = Vec::new();
    v.push(0x66u8);
    v.push(0x61u8);
    v.push(0x63u8);
    v.push(0x74u8);
    v.push(0x3au8);
    let mut i: usize = 0;
    while i < key.len()
        invariant
            i <= key@.len(),
            v@ == seq![0x66u8, 0x61u8, 0x63u8, 0x74u8, 0x3au8] + key@.take(i as int),
        decreases key@.len() - i,
    {
        v.push(key[i]);
        i = i + 1;
        assert(v@ =~= seq![0x66u8, 0x61u8, 0x63u8, 0x74u8, 0x3au8] + key@.take(i as int));
    }
    proof {
        assert(v@ =~= spec_fact_key(key@));
    }
    v
}

/// The durable block store plus the height and last-hash pointers and the
/// fact cache.
///
/// The contracts model the store as an exclusively owned map. The underlying
/// handle is a cloneable reference to shared state, so each opened store must
/// be wrapped in exactly one `Storage`, never through two clones of one
/// handle.
pub struct Storage {
    db: sled::Db,
}

impl Storage {
    /// The store's current contents.
    pub closed spec fn view(&self) -> Map<Seq<u8>, Seq<u8>> {
        db_view(self.db)
    }

    /// Wraps an opened store. Opening the underlying database is I/O and is
    /// done by the caller, which must hand over its only handle.
    pub fn new(db: sled::Db) -> (r: Storage)
        ensures
            r.view() == db_view(db),
    {
        Storage { db }
    }

    /// Commits one block durably: writes the block entry, the height and the
    /// last hash, then flushes. On success the store holds exactly the
    /// committed state; any backend failure is reported as a write failure,
    /// which the engine treats as fatal.
    pub fn save_block(&mut self, block: &Block) -> (r: Result<(), LedgerError>)
        ensures
            r is Ok ==> final(self).view() == ledger_after_commit(old(self).view(), block@),
    {
        let key = block_key_bytes(block.index);
        let value = block.serialize();
        if db_insert(&mut self.db, &key, value).is_err() {
            return Err(LedgerError);
        }
        let hkey = height_key_bytes();
        let mut hval: Vec<u8> = Vec::new();
        push_u64_be(&mut hval, block.index);
        proof {
            assert(hval@ =~= u64_be(block.index));
        }
        if db_insert(&mut self.db, &hkey, hval).is_err() {
            return Err(LedgerError);
        }
        let lkey = last_hash_key_bytes();
        let lval = clone_bytes(&block.hash);
        if db_insert(&mut self.db, &lkey, lval).is_err() {
            return Err(LedgerError);
        }
        if db_flush(&mut self.db).is_err() {
            return Err(LedgerError);
        }
        Ok(())
    }

    /// The current chain height, or zero before any block.
    pub fn get_height(&self) -> (r: Result<u64, LedgerError>)
        ensures
            r matches Ok(h) ==> h == stored_height(self.view()),
    {
        let key = height_key_bytes();
        match db_get(&self.db, &key) {
            Err(_) => Err(LedgerError),
            Ok(None) => Ok(0),
            Ok(Some(v)) => {
                if v.len() == 8 {
                    let x: u64 = ((v[0] as u64) << 56) | ((v[1] as u64) << 48)
                        | ((v[2] as u64) << 40) | ((v[3] as u64) << 32) | ((v[4] as u64) << 24)
                        | ((v[5] as u64) << 16) | ((v[6] as u64) << 8) | (v[7] as u64);
                    Ok(x)
                } else {
                    Ok(0)
                }
            },
        }
    }

    /// The latest block's hash, or the genesis value before any block.
    pub fn get_last_hash(&self) -> (r: Result<Vec<u8>, LedgerError>)
        ensures
            r matches Ok(v) ==> v@ == stored_last_hash(self.view()),
    {
        let key = last_hash_key_bytes();
        match db_get(&self.db, &key) {
            Err(_) => Err(LedgerError),
            Ok(Some(v)) => Ok(v),
            Ok(None) => {
                let mut v: Vec<u8> = Vec::new();
                let mut i: usize = 0;
                while i < 64
                    invariant
                        i <= 64,
                        v@.len() == i,
                        forall|j: int| 0 <= j < i ==> v@[j] == 0x30u8,
                    decreases 64 - i,
                {
                    v.push(0x30u8);
                    i = i + 1;
                }
                proof {
                    assert(v@ =~= spec_genesis_hash());
                }
                Ok(v)
            },
        }
    }

    /// The block stored at an index, decoded from its canonical encoding;
    /// absent or undecodable entries read as no block.
    pub fn get_block(&self, index: u64) -> (r: Result<Option<Block>, LedgerError>)
        ensures
            match r {
                Ok(Some(b)) => self.view().contains_key(spec_block_key(index))
                    && spec_deserialize(self.view()[spec_block_key(index)]) == Some(b@),
                Ok(None) => !self.view().contains_key(spec_block_key(index))
                    || spec_deserialize(self.view()[spec_block_key(index)]) is None,
                Err(_) => true,
            },
    {
        let key = block_key_bytes(index);
        match db_get(&self.db, &key) {
            Err(_) => Err(LedgerError),
            Ok(None) => Ok(None),
            Ok(Some(v)) => Ok(deserialize(v.as_slice())),
        }
    }

    /// Stores a non-consensus fact under `fact:<key>`.
    pub fn learn_fact(&mut self, key: &Vec<u8>, value: &Vec<u8>) -> (r: Result<(), LedgerError>)
        ensures
            r is Ok ==> final(self).view() == old(self).view().insert(spec_fact_key(key@), value@),
    {
        let fkey = fact_key_bytes(key);
        let fval = clone_bytes(value);
        match db_insert(&mut self.db, &fkey, fval) {
            Ok(()) => Ok(()),
            Err(_) => Err(LedgerError),
        }
    }

    /// Recalls a fact stored under `fact:<key>`, if any.
    pub fn recall_fact(&self, key: &Vec<u8>) -> (r: Result<Option<Vec<u8>>, LedgerError>)
        ensures
            match r {
                Ok(Some(v)) => self.view().contains_key(spec_fact_key(key@)) && v@ == self.view()[
                    spec_fact_key(key@)
                ],
                Ok(None) => !self.view().contains_key(spec_fact_key(key@)),
                Err(_) => true,
            },
    {
        let fkey = fact_key_bytes(key);
        match db_get(&self.db, &fkey) {
            Err(_) => Err(LedgerError),
            Ok(v) => Ok(v),
        }
    }
}

/// A fresh copy of a byte vector.
fn clone_bytes(v: &Vec<u8>) -> (r: Vec<u8>)
    ensures
        r@ == v@,
{
    let mut out: Vec<u8> = Vec::new();
    let mut i: usize = 0;
    while i < v.len()
        invariant
            i <= v@.len(),
            out@ == v@.take(i as int),
        decreases v@.len() - i,
    {
        out.push(v[i]);
        i = i + 1;
        assert(out@ =~= v@.take(i as int));
    }
    assert(out@ =~= v@);
    out
}

} // verus!
