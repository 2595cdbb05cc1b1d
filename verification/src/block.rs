//! Blocks and their canonical byte encoding.
//!
//! A block's `hash` is the lowercase hex digest of SHA-256 over the canonical
//! header encoding: every field except the hash itself, in a fixed order,
//! with the full transaction set. Any change to any of those fields changes
//! the header bytes and so the hash. The wire form of a whole block is the
//! header bytes followed by the hash as a length-prefixed field, so that
//! decoding a serialized block recovers every field exactly.
//!
//! A small fixed set of indices is forbidden: no block may ever be minted at
//! one of those heights, and `Block::new` refuses them with a fatal error.

use vstd::prelude::*;
use crate::codec::{
    enc_bytes, u64_be, parse_bytes, parse_u64, push_bytes_field, push_u64_be, read_bytes_field,
    read_u64_be,
};
use crate::crypto::{hex_of, sha256_of, sha256, hex_encode};
use crate::fixed_point::FixedPoint;
use crate::transaction::{Transaction, TxModel};

verus! {

/// A fatal condition: the engine must stop rather than continue past it.
#[derive(Clone, Copy, Debug, PartialEq, Eq, Structural)]
pub enum FatalError {
    /// The next index falls in the forbidden set and must never be minted.
    ForbiddenHeight,
    /// The ledger could not durably record a block; continuing would risk
    /// cross-node divergence.
    LedgerWriteFailure,
    /// The index space is exhausted: the previous height is the largest
    /// representable one.
    HeightExhausted,
}

/// The indices at which no block may ever be minted.
pub open spec fn forbidden_height(h: u64) -> bool {
    h == 7 || h == 77 || h == 777 || h == 7777 || h == 77777 || h == 777777 || h == 7777777
}

/// Exec check of the forbidden set.
pub fn is_forbidden_height(h: u64) -> (r: bool)
    ensures
        r == forbidden_height(h),
{
    h == 7 || h == 77 || h == 777 || h == 7777 || h == 77777 || h == 777777 || h == 7777777
}

/// The fixed seven-byte integrity signature every block carries.
pub open spec fn eternal_signature_spec() -> Seq<u8> {
    seq![7u8, 7u8, 7u8, 7u8, 7u8, 7u8, 7u8]
}

/// Exec copy of the integrity signature.
pub fn eternal_signature_bytes() -> (r: Vec<u8>)
    ensures
        r@ == eternal_signature_spec(),
{
    let mut v: Vec<u8> = Vec::new();
    v.push(7u8);
    v.push(7u8);
    v.push(7u8);
    v.push(7u8);
    v.push(7u8);
    v.push(7u8);
    v.push(7u8);
    proof {
        assert(v@ =~= eternal_signature_spec());
    }
    v
}

/// A committed or candidate block.
#[derive(Clone, Debug, PartialEq, Eq)]
pub struct Block {
    /// Monotonic, gapless index; never in the forbidden set.
    pub index: u64,
    pub timestamp: u64,
    /// The previous block's hash, 64 lowercase hex digits.
    pub prev_hash: Vec<u8>,
    /// SHA-256 over the canonical header encoding, as lowercase hex.
    pub hash: Vec<u8>,
    pub transactions: Vec<Transaction>,
    /// The scorer's verdict for this height, a deterministic fixed-point
    /// value.
    pub spike_score: FixedPoint,
    /// The miner's identifier.
    pub miner: Vec<u8>,
    /// The fixed integrity signature.
    pub eternal_signature: Vec<u8>,
    /// Set once the index has been checked against the forbidden set.
    pub forbidden_gene_checked: bool,
}

/// The mathematical value of a block.
#[verifier::ext_equal]
pub ghost struct BlockModel {
    pub index: u64,
    pub timestamp: u64,
    pub prev_hash: Seq<u8>,
    pub hash: Seq<u8>,
    pub transactions: Seq<TxModel>,
    pub spike_score: FixedPoint,
    pub miner: Seq<u8>,
    pub eternal_signature: Seq<u8>,
    pub forbidden_gene_checked: bool,
}

impl View for Block {
    type V = BlockModel;

    open spec fn view(&self) -> BlockModel {
        BlockModel {
            index: self.index,
            timestamp: self.timestamp,
            prev_hash: self.prev_hash@,
            hash: self.hash@,
            transactions: self.transactions@.map_values(|t: Transaction| t@),
            spike_score: self.spike_score,
            miner: self.miner@,
            eternal_signature: self.eternal_signature@,
            forbidden_gene_checked: self.forbidden_gene_checked,
        }
    }
}

/// One byte for a flag.
pub open spec fn enc_bool(x: bool) -> Seq<u8> {
    if x {
        seq![1u8]
    } else {
        seq![0u8]
    }
}

/// The canonical wire encoding of one transaction.
pub open spec fn enc_tx(t: TxModel) -> Seq<u8> {
    enc_bytes(t.id) + enc_bytes(t.sender) + enc_bytes(t.receiver) + u64_be(t.amount)
        + u64_be(t.fee) + u64_be(t.nonce) + u64_be(t.timestamp) + enc_bytes(t.signature)
}

/// The transactions of a block, back to back.
pub open spec fn enc_tx_list(ts: Seq<TxModel>) -> Seq<u8>
    decreases ts.len(),
{
    if ts.len() == 0 {
        seq![]
    } else {
        enc_tx(ts[0]) + enc_tx_list(ts.drop_first())
    }
}

/// The transaction set: a count, then each transaction.
pub open spec fn enc_txs(ts: Seq<TxModel>) -> Seq<u8> {
    u64_be(ts.len() as u64) + enc_tx_list(ts)
}

/// The canonical header encoding: every field but the hash, in fixed order.
/// This is the exact byte string the block hash is computed over.
pub open spec fn block_header_bytes(b: BlockModel) -> Seq<u8> {
    u64_be(b.index) + u64_be(b.timestamp) + enc_bytes(b.prev_hash)
        + u64_be(b.spike_score.raw as u64) + enc_bytes(b.miner) + enc_bytes(b.eternal_signature)
        + enc_bool(b.forbidden_gene_checked) + enc_txs(b.transactions)
}

/// The block hash: lowercase hex of SHA-256 over the header encoding.
pub open spec fn spec_block_hash(b: BlockModel) -> Seq<u8> {
    hex_of(sha256_of(block_header_bytes(b)))
}

/// The full wire encoding of a block: header bytes, then the hash field.
pub open spec fn block_bytes(b: BlockModel) -> Seq<u8> {
    block_header_bytes(b) + enc_bytes(b.hash)
}

/// A block whose stored hash is the digest of its own header encoding.
pub open spec fn block_hash_consistent(b: BlockModel) -> bool {
    b.hash == spec_block_hash(b)
}

impl Block {
    /// Appends the canonical encoding of one transaction.
    fn push_tx(out: &mut Vec<u8>, t: &Transaction)
        ensures
            final(out)@ == old(out)@ + enc_tx(t@),
    {
        push_bytes_field(out, &t.id);
        push_bytes_field(out, &t.sender);
        push_bytes_field(out, &t.receiver);
        push_u64_be(out, t.amount);
        push_u64_be(out, t.fee);
        push_u64_be(out, t.nonce);
        push_u64_be(out, t.timestamp);
        push_bytes_field(out, &t.signature);
        assert(final(out)@ =~= old(out)@ + enc_tx(t@));
    }

    /// Appends the canonical header encoding of this block.
    #[verifier::rlimit(50)]
    fn push_header(&self, out: &mut Vec<u8>)
        ensures
            final(out)@ == old(out)@ + block_header_bytes(self@),
    {
        push_u64_be(out, self.index);
        push_u64_be(out, self.timestamp);
        push_bytes_field(out, &self.prev_hash);
        push_u64_be(out, self.spike_score.raw as u64);
        push_bytes_field(out, &self.miner);
        push_bytes_field(out, &self.eternal_signature);
        if self.forbidden_gene_checked {
            out.push(1u8);
        } else {
            out.push(0u8);
        }
        push_u64_be(out, self.transactions.len() as u64);
        let ghost pre_txs = out@;
        let mut i: usize = 0;
        while i < self.transactions.len()
            invariant
                i <= self.transactions@.len(),
                out@ == pre_txs + enc_tx_list(
                    self.transactions@.map_values(|t: Transaction| t@).take(i as int),
                ),
            decreases self.transactions@.len() - i,
        {
            let ghost views = self.transactions@.map_values(|t: Transaction| t@);
            Self::push_tx(out, &self.transactions[i]);
            i = i + 1;
            proof {
                lemma_enc_tx_list_snoc(views.take(i as int - 1), views[i as int - 1]);
                assert(views.take(i as int - 1).push(views[i as int - 1]) =~= views.take(
                    i as int,
                ));
                assert(out@ =~= pre_txs + enc_tx_list(views.take(i as int)));
            }
        }
        proof {
            let views = self.transactions@.map_values(|t: Transaction| t@);
            assert(views.take(views.len() as int) =~= views);
            assert(out@ =~= old(out)@ + block_header_bytes(self@));
        }
    }

    /// The canonical header encoding as bytes.
    pub fn header_bytes(&self) -> (r: Vec<u8>)
        ensures
            r@ == block_header_bytes(self@),
    {
        let mut out: Vec<u8> = Vec::new();
        self.push_header(&mut out);
        out
    }

    /// Recomputes this block's hash from its fields: lowercase hex of the
    /// SHA-256 digest of the canonical header encoding.
    pub fn calculate_hash(&self) -> (r: Vec<u8>)
        ensures
            r@ == spec_block_hash(self@),
            r@.len() == 64,
    {
        let header = self.header_bytes();
        let digest = sha256(header.as_slice());
        let out = hex_encode(digest.as_slice());
        proof {
            crate::crypto::lemma_hex_of_len(digest@);
        }
        out
    }

    /// The full wire encoding, for persistence and broadcast.
    pub fn serialize(&self) -> (r: Vec<u8>)
        ensures
            r@ == block_bytes(self@),
    {
        let mut out: Vec<u8> = Vec::new();
        self.push_header(&mut out);
        push_bytes_field(&mut out, &self.hash);
        out
    }

    /// Builds a candidate block. The index is checked against the forbidden
    /// set first: a forbidden height is a fatal condition, never minted.
    /// On success every field is pinned and the stored hash is the digest of
    /// the canonical header encoding.
    pub fn new(
        index: u64,
        prev_hash: Vec<u8>,
        transactions: Vec<Transaction>,
        miner: Vec<u8>,
        spike_score: FixedPoint,
        timestamp: u64,
    ) -> (r: Result<Block, FatalError>)
        ensures
            forbidden_height(index) <==> r == Err::<Block, FatalError>(FatalError::ForbiddenHeight),
            match r {
                Ok(b) => {
                    &&& b.index == index
                    &&& b.timestamp == timestamp
                    &&& b.prev_hash@ == prev_hash@
                    &&& b.transactions@ == transactions@
                    &&& b.spike_score == spike_score
                    &&& b.miner@ == miner@
                    &&& b.eternal_signature@ == eternal_signature_spec()
                    &&& b.forbidden_gene_checked == true
                    &&& block_hash_consistent(b@)
                },
                Err(e) => e == FatalError::ForbiddenHeight,
            },
    {
        if is_forbidden_height(index) {
            return Err(FatalError::ForbiddenHeight);
        }
        let mut block = Block {
            index,
            timestamp,
            prev_hash,
            hash: Vec::new(),
            transactions,
            spike_score,
            miner,
            eternal_signature: eternal_signature_bytes(),
            forbidden_gene_checked: true,
        };
        let h = block.calculate_hash();
        let ghost before = block@;
        block.hash = h;
        proof {
            assert(block_header_bytes(block@) == block_header_bytes(before));
        }
        Ok(block)
    }
}

/// Parses a one-byte flag off the front of a byte stream.
pub open spec fn parse_bool(s: Seq<u8>) -> Option<(bool, Seq<u8>)> {
    if s.len() >= 1 && (s[0] == 0 || s[0] == 1) {
        Some((s[0] == 1, s.skip(1)))
    } else {
        None
    }
}

/// Parses one transaction off the front of a byte stream.
pub open spec fn parse_tx(s: Seq<u8>) -> Option<(TxModel, Seq<u8>)> {
    match parse_bytes(s) {
        None => None,
        Some((id, s1)) => match parse_bytes(s1) {
            None => None,
            Some((sender, s2)) => match parse_bytes(s2) {
                None => None,
                Some((receiver, s3)) => match parse_u64(s3) {
                    None => None,
                    Some((amount, s4)) => match parse_u64(s4) {
                        None => None,
                        Some((fee, s5)) => match parse_u64(s5) {
                            None => None,
                            Some((nonce, s6)) => match parse_u64(s6) {
                                None => None,
                                Some((timestamp, s7)) => match parse_bytes(s7) {
                                    None => None,
                                    Some((signature, s8)) => Some(
                                        (
                                            TxModel {
                                                id,
                                                sender,
                                                receiver,
                                                amount,
                                                fee,
                                                nonce,
                                                timestamp,
                                                signature,
                                            },
                                            s8,
                                        ),
                                    ),
                                },
                            },
                        },
                    },
                },
            },
        },
    }
}

/// Parses exactly `n` transactions off the front of a byte stream.
pub open spec fn parse_tx_list(s: Seq<u8>, n: nat) -> Option<(Seq<TxModel>, Seq<u8>)>
    decreases n,
{
    if n == 0 {
        Some((Seq::<TxModel>::empty(), s))
    } else {
        match parse_tx(s) {
            None => None,
            Some((t, r)) => match parse_tx_list(r, (n - 1) as nat) {
                None => None,
                Some((ts, r2)) => Some((seq![t] + ts, r2)),
            },
        }
    }
}

/// Parses a counted transaction set off the front of a byte stream.
pub open spec fn parse_txs(s: Seq<u8>) -> Option<(Seq<TxModel>, Seq<u8>)> {
    match parse_u64(s) {
        None => None,
        Some((n, r)) => parse_tx_list(r, n as nat),
    }
}

/// Parses a whole block off the front of a byte stream.
pub open spec fn parse_block(s: Seq<u8>) -> Option<(BlockModel, Seq<u8>)> {
    match parse_u64(s) {
        None => None,
        Some((index, s1)) => match parse_u64(s1) {
            None => None,
            Some((timestamp, s2)) => match parse_bytes(s2) {
                None => None,
                Some((prev_hash, s3)) => match parse_u64(s3) {
                    None => None,
                    Some((raw, s4)) => match parse_bytes(s4) {
                        None => None,
                        Some((miner, s5)) => match parse_bytes(s5) {
                            None => None,
                            Some((etsig, s6)) => match parse_bool(s6) {
                                None => None,
                                Some((flag, s7)) => match parse_txs(s7) {
                                    None => None,
                                    Some((ts, s8)) => match parse_bytes(s8) {
                                        None => None,
                                        Some((hash, s9)) => Some(
                                            (
                                                BlockModel {
                                                    index,
                                                    timestamp,
                                                    prev_hash,
                                                    hash,
                                                    transactions: ts,
                                                    spike_score: FixedPoint { raw: raw as i64 },
                                                    miner,
                                                    eternal_signature: etsig,
                                                    forbidden_gene_checked: flag,
                                                },
                                                s9,
                                            ),
                                        ),
                                    },
                                },
                            },
                        },
                    },
                },
            },
        },
    }
}

/// What deserialization of a byte string yields: a block exactly when the
/// bytes are a whole canonical block encoding with nothing trailing.
pub open spec fn spec_deserialize(s: Seq<u8>) -> Option<BlockModel> {
    match parse_block(s) {
        None => None,
        Some((b, rest)) => if rest.len() == 0 {
            Some(b)
        } else {
            None
        },
    }
}

/// Whether a transaction model's byte fields fit a length prefix.
pub open spec fn tx_model_bounded(t: TxModel) -> bool {
    &&& t.id.len() <= u64::MAX
    &&& t.sender.len() <= u64::MAX
    &&& t.receiver.len() <= u64::MAX
    &&& t.signature.len() <= u64::MAX
}

/// Whether a block model's byte fields and count fit their prefixes.
pub open spec fn block_model_bounded(b: BlockModel) -> bool {
    &&& b.prev_hash.len() <= u64::MAX
    &&& b.hash.len() <= u64::MAX
    &&& b.miner.len() <= u64::MAX
    &&& b.eternal_signature.len() <= u64::MAX
    &&& b.transactions.len() <= u64::MAX
    &&& forall|i: int|
        0 <= i < b.transactions.len() ==> tx_model_bounded(#[trigger] b.transactions[i])
}

/// Appending one transaction to a list extends its encoding at the end.
proof fn lemma_enc_tx_list_snoc(ts: Seq<TxModel>, t: TxModel)
    ensures
        enc_tx_list(ts.push(t)) == enc_tx_list(ts) + enc_tx(t),
    decreases ts.len(),
{
    let whole = ts.push(t);
    assert(enc_tx_list(whole) == enc_tx(whole[0]) + enc_tx_list(whole.drop_first()));
    if ts.len() == 0 {
        assert(whole[0] == t);
        assert(whole.drop_first() =~= Seq::<TxModel>::empty());
        assert(enc_tx_list(whole.drop_first()) == Seq::<u8>::empty());
        assert(enc_tx(whole[0]) + enc_tx_list(whole.drop_first()) =~= enc_tx(t));
        assert(enc_tx_list(ts) == Seq::<u8>::empty());
        assert(enc_tx_list(ts) + enc_tx(t) =~= enc_tx(t));
    } else {
        assert(whole.drop_first() =~= ts.drop_first().push(t));
        lemma_enc_tx_list_snoc(ts.drop_first(), t);
        assert(whole[0] == ts[0]);
        assert(enc_tx_list(ts) == enc_tx(ts[0]) + enc_tx_list(ts.drop_first()));
        assert(enc_tx(ts[0]) + (enc_tx_list(ts.drop_first()) + enc_tx(t)) =~= (enc_tx(ts[0])
            + enc_tx_list(ts.drop_first())) + enc_tx(t));
    }
}


/// Casting raw score bits through their unsigned wire form loses nothing.
proof fn lemma_i64_u64_roundtrip(x: i64)
    ensures
        ((x as u64) as i64) == x,
{
    assert(((x as u64) as i64) == x) by (bit_vector);
}

/// Parsing a flag undoes encoding one, whatever follows.
proof fn lemma_parse_bool_enc(x: bool, rest: Seq<u8>)
    ensures
        parse_bool(enc_bool(x) + rest) == Some((x, rest)),
{
    let s = enc_bool(x) + rest;
    assert(s[0] == if x { 1u8 } else { 0u8 });
    assert(s.skip(1) =~= rest);
}

/// The encoding of a transaction followed by a tail, reassociated so that
/// each field's encoding stands first in turn.
proof fn lemma_enc_tx_shape(t: TxModel, rest: Seq<u8>)
    ensures
        enc_tx(t) + rest == enc_bytes(t.id) + (enc_bytes(t.sender) + (enc_bytes(t.receiver)
            + (u64_be(t.amount) + (u64_be(t.fee) + (u64_be(t.nonce) + (u64_be(t.timestamp)
            + (enc_bytes(t.signature) + rest))))))),
{
    let e1 = enc_bytes(t.id);
    let e2 = enc_bytes(t.sender);
    let e3 = enc_bytes(t.receiver);
    let e4 = u64_be(t.amount);
    let e5 = u64_be(t.fee);
    let e6 = u64_be(t.nonce);
    let e7 = u64_be(t.timestamp);
    let e8 = enc_bytes(t.signature);
    let p2 = e1 + e2;
    let p3 = p2 + e3;
    let p4 = p3 + e4;
    let p5 = p4 + e5;
    let p6 = p5 + e6;
    let p7 = p6 + e7;
    crate::codec::lemma_concat_assoc(p7, e8, rest);
    crate::codec::lemma_concat_assoc(p6, e7, e8 + rest);
    crate::codec::lemma_concat_assoc(p5, e6, e7 + (e8 + rest));
    crate::codec::lemma_concat_assoc(p4, e5, e6 + (e7 + (e8 + rest)));
    crate::codec::lemma_concat_assoc(p3, e4, e5 + (e6 + (e7 + (e8 + rest))));
    crate::codec::lemma_concat_assoc(p2, e3, e4 + (e5 + (e6 + (e7 + (e8 + rest)))));
    crate::codec::lemma_concat_assoc(e1, e2, e3 + (e4 + (e5 + (e6 + (e7 + (e8 + rest))))));
}

/// Parsing a transaction undoes encoding one, whatever follows.
#[verifier::spinoff_prover]
#[verifier::rlimit(100)]
pub proof fn lemma_parse_tx_enc(t: TxModel, rest: Seq<u8>)
    requires
        tx_model_bounded(t),
    ensures
        parse_tx(enc_tx(t) + rest) == Some((t, rest)),
{
    let r7 = enc_bytes(t.signature) + rest;
    let r6 = u64_be(t.timestamp) + r7;
    let r5 = u64_be(t.nonce) + r6;
    let r4 = u64_be(t.fee) + r5;
    let r3 = u64_be(t.amount) + r4;
    let r2 = enc_bytes(t.receiver) + r3;
    let r1 = enc_bytes(t.sender) + r2;
    lemma_enc_tx_shape(t, rest);
    assert(enc_tx(t) + rest == enc_bytes(t.id) + r1);
    crate::codec::lemma_parse_bytes_enc(t.id, r1);
    crate::codec::lemma_parse_bytes_enc(t.sender, r2);
    crate::codec::lemma_parse_bytes_enc(t.receiver, r3);
    crate::codec::lemma_parse_u64_enc(t.amount, r4);
    crate::codec::lemma_parse_u64_enc(t.fee, r5);
    crate::codec::lemma_parse_u64_enc(t.nonce, r6);
    crate::codec::lemma_parse_u64_enc(t.timestamp, r7);
    crate::codec::lemma_parse_bytes_enc(t.signature, rest);
    assert(TxModel {
        id: t.id,
        sender: t.sender,
        receiver: t.receiver,
        amount: t.amount,
        fee: t.fee,
        nonce: t.nonce,
        timestamp: t.timestamp,
        signature: t.signature,
    } == t);
}

/// Unfolds one step of `parse_tx_list` when the first transaction parses.
#[verifier::spinoff_prover]
proof fn lemma_parse_tx_list_step(s: Seq<u8>, n: nat, t: TxModel, rest: Seq<u8>)
    requires
        n > 0,
        parse_tx(s) == Some((t, rest)),
    ensures
        parse_tx_list(s, n) == match parse_tx_list(rest, (n - 1) as nat) {
            None => None,
            Some((ts, r2)) => Some((seq![t] + ts, r2)),
        },
{
}

/// One step of `parse_tx_list` fails when the first transaction does not
/// parse.
#[verifier::spinoff_prover]
proof fn lemma_parse_tx_list_fail(s: Seq<u8>, n: nat)
    requires
        n > 0,
        parse_tx(s) is None,
    ensures
        parse_tx_list(s, n) is None,
{
}

/// Parsing `n` transactions undoes encoding a list of `n`, whatever follows.
#[verifier::spinoff_prover]
#[verifier::rlimit(100)]
proof fn lemma_parse_tx_list_enc(ts: Seq<TxModel>, rest: Seq<u8>)
    requires
        forall|i: int| 0 <= i < ts.len() ==> tx_model_bounded(#[trigger] ts[i]),
    ensures
        parse_tx_list(enc_tx_list(ts) + rest, ts.len()) == Some((ts, rest)),
    decreases ts.len(),
{
    if ts.len() == 0 {
        assert(enc_tx_list(ts) + rest =~= rest);
        assert(ts =~= Seq::<TxModel>::empty());
    } else {
        let tail = ts.drop_first();
        let inner = enc_tx_list(tail) + rest;
        assert(enc_tx_list(ts) == enc_tx(ts[0]) + enc_tx_list(tail));
        crate::codec::lemma_concat_assoc(enc_tx(ts[0]), enc_tx_list(tail), rest);
        assert(enc_tx_list(ts) + rest == enc_tx(ts[0]) + inner);
        lemma_parse_tx_enc(ts[0], inner);
        assert(forall|i: int| 0 <= i < tail.len() ==> tx_model_bounded(#[trigger] tail[i]));
        lemma_parse_tx_list_enc(tail, rest);
        assert(seq![ts[0]] + tail =~= ts);
    }
}

/// Parsing a counted transaction set undoes encoding one, whatever follows.
#[verifier::spinoff_prover]
proof fn lemma_parse_txs_enc(ts: Seq<TxModel>, rest: Seq<u8>)
    requires
        ts.len() <= u64::MAX,
        forall|i: int| 0 <= i < ts.len() ==> tx_model_bounded(#[trigger] ts[i]),
    ensures
        parse_txs(enc_txs(ts) + rest) == Some((ts, rest)),
{
    let inner = enc_tx_list(ts) + rest;
    crate::codec::lemma_concat_assoc(u64_be(ts.len() as u64), enc_tx_list(ts), rest);
    assert(enc_txs(ts) + rest == u64_be(ts.len() as u64) + inner);
    crate::codec::lemma_parse_u64_enc(ts.len() as u64, inner);
    lemma_parse_tx_list_enc(ts, rest);
}

/// The wire encoding of a block, reassociated so that each field's encoding
/// stands first in turn.
proof fn lemma_enc_block_shape(b: BlockModel)
    ensures
        block_bytes(b) == u64_be(b.index) + (u64_be(b.timestamp) + (enc_bytes(b.prev_hash)
            + (u64_be(b.spike_score.raw as u64) + (enc_bytes(b.miner)
            + (enc_bytes(b.eternal_signature) + (enc_bool(b.forbidden_gene_checked)
            + (enc_txs(b.transactions) + enc_bytes(b.hash)))))))),
{
    let h1 = u64_be(b.index);
    let h2 = u64_be(b.timestamp);
    let h3 = enc_bytes(b.prev_hash);
    let h4 = u64_be(b.spike_score.raw as u64);
    let h5 = enc_bytes(b.miner);
    let h6 = enc_bytes(b.eternal_signature);
    let h7 = enc_bool(b.forbidden_gene_checked);
    let h8 = enc_txs(b.transactions);
    let h9 = enc_bytes(b.hash);
    let p2 = h1 + h2;
    let p3 = p2 + h3;
    let p4 = p3 + h4;
    let p5 = p4 + h5;
    let p6 = p5 + h6;
    let p7 = p6 + h7;
    crate::codec::lemma_concat_assoc(p7, h8, h9);
    crate::codec::lemma_concat_assoc(p6, h7, h8 + h9);
    crate::codec::lemma_concat_assoc(p5, h6, h7 + (h8 + h9));
    crate::codec::lemma_concat_assoc(p4, h5, h6 + (h7 + (h8 + h9)));
    crate::codec::lemma_concat_assoc(p3, h4, h5 + (h6 + (h7 + (h8 + h9))));
    crate::codec::lemma_concat_assoc(p2, h3, h4 + (h5 + (h6 + (h7 + (h8 + h9)))));
    crate::codec::lemma_concat_assoc(h1, h2, h3 + (h4 + (h5 + (h6 + (h7 + (h8 + h9))))));
}

/// Law: deserialization undoes serialization. Parsing the canonical wire
/// encoding of any block yields that block, field for field, with nothing
/// left over; the recovered fields reproduce the original header bytes, so
/// recomputing the hash over the parsed value gives exactly the hash that
/// was serialized alongside it.
#[verifier::spinoff_prover]
#[verifier::rlimit(100)]
pub proof fn lemma_block_roundtrip(b: BlockModel)
    requires
        block_model_bounded(b),
    ensures
        spec_deserialize(block_bytes(b)) == Some(b),
{
    let empty = Seq::<u8>::empty();
    let t8 = enc_bytes(b.hash) + empty;
    let t7 = enc_txs(b.transactions) + t8;
    let t6 = enc_bool(b.forbidden_gene_checked) + t7;
    let t5 = enc_bytes(b.eternal_signature) + t6;
    let t4 = enc_bytes(b.miner) + t5;
    let t3 = u64_be(b.spike_score.raw as u64) + t4;
    let t2 = enc_bytes(b.prev_hash) + t3;
    let t1 = u64_be(b.timestamp) + t2;
    lemma_enc_block_shape(b);
    assert(enc_bytes(b.hash) + empty =~= enc_bytes(b.hash));
    assert(enc_txs(b.transactions) + (enc_bytes(b.hash) + empty) == enc_txs(b.transactions)
        + enc_bytes(b.hash));
    assert(block_bytes(b) == u64_be(b.index) + t1);
    crate::codec::lemma_parse_u64_enc(b.index, t1);
    crate::codec::lemma_parse_u64_enc(b.timestamp, t2);
    crate::codec::lemma_parse_bytes_enc(b.prev_hash, t3);
    crate::codec::lemma_parse_u64_enc(b.spike_score.raw as u64, t4);
    crate::codec::lemma_parse_bytes_enc(b.miner, t5);
    crate::codec::lemma_parse_bytes_enc(b.eternal_signature, t6);
    lemma_parse_bool_enc(b.forbidden_gene_checked, t7);
    lemma_parse_txs_enc(b.transactions, t8);
    crate::codec::lemma_parse_bytes_enc(b.hash, empty);
    lemma_i64_u64_roundtrip(b.spike_score.raw);
    let rebuilt = BlockModel {
        index: b.index,
        timestamp: b.timestamp,
        prev_hash: b.prev_hash,
        hash: b.hash,
        transactions: b.transactions,
        spike_score: FixedPoint { raw: (b.spike_score.raw as u64) as i64 },
        miner: b.miner,
        eternal_signature: b.eternal_signature,
        forbidden_gene_checked: b.forbidden_gene_checked,
    };
    assert(rebuilt =~= b);
    assert(parse_block(block_bytes(b)) == Some((rebuilt, empty)));
}

/// Reads a one-byte flag at `pos`.
fn read_bool(s: &[u8], pos: usize) -> (r: Option<(bool, usize)>)
    requires
        pos <= s@.len(),
    ensures
        match r {
            Some(xp) => {
                &&& parse_bool(s@.skip(pos as int)) == Some((xp.0, s@.skip(xp.1 as int)))
                &&& pos < xp.1 <= s@.len()
            },
            None => parse_bool(s@.skip(pos as int)) is None,
        },
{
    if pos < s.len() && (s[pos] == 0 || s[pos] == 1) {
        proof {
            let t = s@.skip(pos as int);
            assert(t[0] == s@[pos as int]);
            assert(t.skip(1) =~= s@.skip(pos as int + 1));
        }
        Some((s[pos] == 1, pos + 1))
    } else {
        None
    }
}

/// Reads one transaction at `pos`.
#[verifier::spinoff_prover]
#[verifier::rlimit(100)]
fn read_tx(s: &[u8], pos: usize) -> (r: Option<(Transaction, usize)>)
    requires
        pos <= s@.len(),
    ensures
        match r {
            Some(tp) => {
                &&& parse_tx(s@.skip(pos as int)) == Some((tp.0@, s@.skip(tp.1 as int)))
                &&& pos < tp.1 <= s@.len()
            },
            None => parse_tx(s@.skip(pos as int)) is None,
        },
{
    let (id, p1) = match read_bytes_field(s, pos) {
        Some(v) => v,
        None => return None,
    };
    let (sender, p2) = match read_bytes_field(s, p1) {
        Some(v) => v,
        None => return None,
    };
    let (receiver, p3) = match read_bytes_field(s, p2) {
        Some(v) => v,
        None => return None,
    };
    let (amount, p4) = match read_u64_be(s, p3) {
        Some(v) => v,
        None => return None,
    };
    let (fee, p5) = match read_u64_be(s, p4) {
        Some(v) => v,
        None => return None,
    };
    let (nonce, p6) = match read_u64_be(s, p5) {
        Some(v) => v,
        None => return None,
    };
    let (timestamp, p7) = match read_u64_be(s, p6) {
        Some(v) => v,
        None => return None,
    };
    let (signature, p8) = match read_bytes_field(s, p7) {
        Some(v) => v,
        None => return None,
    };
    let t = Transaction { id, sender, receiver, amount, fee, nonce, timestamp, signature };
    Some((t, p8))
}

/// Reads exactly `n` transactions starting at `pos`.
#[verifier::spinoff_prover]
#[verifier::rlimit(100)]
fn read_tx_list(s: &[u8], pos: usize, n: u64) -> (r: Option<(Vec<Transaction>, usize)>)
    requires
        pos <= s@.len(),
    ensures
        match r {
            Some(vp) => {
                &&& parse_tx_list(s@.skip(pos as int), n as nat) == Some(
                    (vp.0@.map_values(|t: Transaction| t@), s@.skip(vp.1 as int)),
                )
                &&& pos <= vp.1 <= s@.len()
                &&& vp.0@.len() == n
            },
            None => parse_tx_list(s@.skip(pos as int), n as nat) is None,
        },
{
    let ghost s_list = s@.skip(pos as int);
    let mut txs: Vec<Transaction> = Vec::new();
    let mut i: u64 = 0;
    let mut cur: usize = pos;
    proof {
        match parse_tx_list(s_list, n as nat) {
            Some(p) => {
                assert(Seq::<TxModel>::empty() + p.0 =~= p.0);
                assert(txs@.map_values(|t: Transaction| t@) =~= Seq::<TxModel>::empty());
            },
            None => {},
        }
    }
    while i < n
        invariant
            i <= n,
            pos <= cur <= s@.len(),
            txs@.len() == i,
            s_list == s@.skip(pos as int),
            match parse_tx_list(s@.skip(cur as int), (n - i) as nat) {
                Some(p) => parse_tx_list(s_list, n as nat) == Some(
                    ((txs@.map_values(|t: Transaction| t@) + p.0), p.1),
                ),
                None => parse_tx_list(s_list, n as nat) is None,
            },
        decreases n - i,
    {
        let ghost acc0 = txs@.map_values(|t: Transaction| t@);
        let t_opt = read_tx(s, cur);
        let (t, p_next) = match t_opt {
            Some(v) => v,
            None => {
                proof {
                    lemma_parse_tx_list_fail(s@.skip(cur as int), (n - i) as nat);
                }
                return None;
            },
        };
        proof {
            lemma_parse_tx_list_step(s@.skip(cur as int), (n - i) as nat, t@, s@.skip(
                p_next as int,
            ));
        }
        txs.push(t);
        proof {
            assert(txs@.map_values(|tt: Transaction| tt@) =~= acc0.push(t@));
            match parse_tx_list(s@.skip(p_next as int), (n - i - 1) as nat) {
                Some(p) => {
                    assert(acc0 + (seq![t@] + p.0) =~= acc0.push(t@) + p.0);
                },
                None => {},
            }
        }
        cur = p_next;
        i = i + 1;
    }
    proof {
        assert(parse_tx_list(s@.skip(cur as int), 0) == Some(
            (Seq::<TxModel>::empty(), s@.skip(cur as int)),
        ));
        assert(txs@.map_values(|t: Transaction| t@) + Seq::<TxModel>::empty() =~= txs@.map_values(
            |t: Transaction| t@,
        ));
    }
    Some((txs, cur))
}

/// Decodes a whole block from its canonical wire encoding: succeeds exactly
/// when the bytes are one complete block encoding, and then returns the
/// encoded block field for field.
#[verifier::spinoff_prover]
#[verifier::rlimit(100)]
pub fn deserialize(s: &[u8]) -> (r: Option<Block>)
    ensures
        match r {
            Some(b) => spec_deserialize(s@) == Some(b@),
            None => spec_deserialize(s@) is None,
        },
{
    proof {
        assert(s@.skip(0) =~= s@);
    }
    let (index, p1) = match read_u64_be(s, 0) {
        Some(v) => v,
        None => return None,
    };
    let (timestamp, p2) = match read_u64_be(s, p1) {
        Some(v) => v,
        None => return None,
    };
    let (prev_hash, p3) = match read_bytes_field(s, p2) {
        Some(v) => v,
        None => return None,
    };
    let (raw, p4) = match read_u64_be(s, p3) {
        Some(v) => v,
        None => return None,
    };
    let (miner, p5) = match read_bytes_field(s, p4) {
        Some(v) => v,
        None => return None,
    };
    let (etsig, p6) = match read_bytes_field(s, p5) {
        Some(v) => v,
        None => return None,
    };
    let (flag, p7) = match read_bool(s, p6) {
        Some(v) => v,
        None => return None,
    };
    let (n, p8) = match read_u64_be(s, p7) {
        Some(v) => v,
        None => return None,
    };
    let (txs, pos) = match read_tx_list(s, p8, n) {
        Some(v) => v,
        None => return None,
    };
    proof {
        assert(parse_txs(s@.skip(p7 as int)) == Some(
            (txs@.map_values(|t: Transaction| t@), s@.skip(pos as int)),
        ));
    }
    let (hash, p9) = match read_bytes_field(s, pos) {
        Some(v) => v,
        None => return None,
    };
    if p9 != s.len() {
        proof {
            assert(s@.skip(p9 as int).len() > 0);
        }
        return None;
    }
    let b = Block {
        index,
        timestamp,
        prev_hash,
        hash,
        transactions: txs,
        spike_score: FixedPoint { raw: #[verifier::truncate] (raw as i64) },
        miner,
        eternal_signature: etsig,
        forbidden_gene_checked: flag,
    };
    proof {
        let bm = BlockModel {
            index,
            timestamp,
            prev_hash: prev_hash@,
            hash: hash@,
            transactions: txs@.map_values(|t: Transaction| t@),
            spike_score: FixedPoint { raw: raw as i64 },
            miner: miner@,
            eternal_signature: etsig@,
            forbidden_gene_checked: flag,
        };
        assert(s@.skip(p9 as int).len() == 0);
        assert(parse_block(s@) == Some((bm, s@.skip(p9 as int))));
        assert(b@ =~= bm);
    }
    Some(b)
}

} // verus!
