//! Pending transactions and the mempool that guards them.
//!
//! A transaction carries its sender's public key and its signature as
//! lowercase hex byte strings. The signature must verify over the canonical
//! signing payload: an explicit byte encoding of (sender, receiver, amount,
//! fee, nonce, timestamp). The payload length-prefixes its byte fields, so
//! distinct field values never share an encoding; a signature is valid only
//! over exactly this byte layout, and clients must sign it and no other.
//! The mempool admits a transaction only if it is well formed, its signature
//! verifies, and its id is not already pending.
//!
//! Transactions leave the pool in arrival order: `pop_n` removes the oldest
//! pending transactions first, a fixed, reproducible selection rule.

use vstd::prelude::*;
use vstd::math::min;
use crate::codec::{enc_bytes, u64_be, push_bytes_field, push_u64_be};
use crate::crypto::{is_hex_seq, hex_decode_spec, hex_decode, ed25519_verifies, ed25519_verify};

verus! {

/// A pending transfer, as submitted by a client.
#[derive(Clone, Debug, PartialEq, Eq)]
pub struct Transaction {
    /// Unique identifier within the mempool.
    pub id: Vec<u8>,
    /// The sender's Ed25519 public key, 64 lowercase hex digits.
    pub sender: Vec<u8>,
    /// The receiving address.
    pub receiver: Vec<u8>,
    pub amount: u64,
    pub fee: u64,
    pub nonce: u64,
    pub timestamp: u64,
    /// The Ed25519 signature over the signing payload, 128 hex digits.
    pub signature: Vec<u8>,
}

/// The mathematical value of a transaction: every byte field as a sequence.
#[verifier::ext_equal]
pub ghost struct TxModel {
    pub id: Seq<u8>,
    pub sender: Seq<u8>,
    pub receiver: Seq<u8>,
    pub amount: u64,
    pub fee: u64,
    pub nonce: u64,
    pub timestamp: u64,
    pub signature: Seq<u8>,
}

impl View for Transaction {
    type V = TxModel;

    open spec fn view(&self) -> TxModel {
        TxModel {
            id: self.id@,
            sender: self.sender@,
            receiver: self.receiver@,
            amount: self.amount,
            fee: self.fee,
            nonce: self.nonce,
            timestamp: self.timestamp,
            signature: self.signature@,
        }
    }
}

/// Why the mempool rejected a transaction.
#[derive(Clone, Copy, Debug, PartialEq, Eq, Structural)]
pub enum TxError {
    /// The sender key or the signature is not hex of the right length.
    Malformed,
    /// The signature does not verify over the canonical payload.
    InvalidSignature,
    /// A transaction with this id is already pending.
    Duplicate,
}

/// The canonical signing payload: the byte string a sender signs.
pub open spec fn spec_signing_payload(t: Transaction) -> Seq<u8> {
    enc_bytes(t.sender@) + enc_bytes(t.receiver@) + u64_be(t.amount) + u64_be(t.fee)
        + u64_be(t.nonce) + u64_be(t.timestamp)
}

/// Whether the hex-carried fields have the right shape: the sender decodes to
/// a 32-byte key, the signature to 64 bytes.
pub open spec fn tx_wellformed(t: Transaction) -> bool {
    &&& is_hex_seq(t.sender@)
    &&& hex_decode_spec(t.sender@).len() == 32
    &&& is_hex_seq(t.signature@)
    &&& hex_decode_spec(t.signature@).len() == 64
}

/// Whether the transaction's signature verifies over its signing payload
/// under its sender key.
pub open spec fn tx_sig_valid(t: Transaction) -> bool {
    ed25519_verifies(
        hex_decode_spec(t.sender@),
        spec_signing_payload(t),
        hex_decode_spec(t.signature@),
    )
}

/// Whether some pending transaction already carries this id.
pub open spec fn seq_has_id(s: Seq<Transaction>, id: Seq<u8>) -> bool {
    exists|i: int| 0 <= i < s.len() && #[trigger] s[i].id@ == id
}

/// Whether all pending ids are pairwise distinct.
pub open spec fn ids_unique(s: Seq<Transaction>) -> bool {
    forall|i: int, j: int|
        0 <= i < j < s.len() ==> #[trigger] s[i].id@ != #[trigger] s[j].id@
}

/// The verdict `add_tx` reaches on a transaction, in checking order:
/// malformed, then invalid signature, then duplicate id.
pub open spec fn spec_add_result(s: Seq<Transaction>, t: Transaction) -> Result<(), TxError> {
    if !tx_wellformed(t) {
        Err(TxError::Malformed)
    } else if !tx_sig_valid(t) {
        Err(TxError::InvalidSignature)
    } else if seq_has_id(s, t.id@) {
        Err(TxError::Duplicate)
    } else {
        Ok(())
    }
}

/// The pool contents after `add_tx`: appended on acceptance, unchanged on
/// rejection.
pub open spec fn spec_add_state(s: Seq<Transaction>, t: Transaction) -> Seq<Transaction> {
    if spec_add_result(s, t) is Ok {
        s.push(t)
    } else {
        s
    }
}

impl Transaction {
    /// The canonical signing payload as bytes, for signing and verifying.
    pub fn signing_payload(&self) -> (r: Vec<u8>)
        ensures
            r@ == spec_signing_payload(*self),
    {
        let mut out: Vec<u8> = Vec::new();
        push_bytes_field(&mut out, &self.sender);
        push_bytes_field(&mut out, &self.receiver);
        push_u64_be(&mut out, self.amount);
        push_u64_be(&mut out, self.fee);
        push_u64_be(&mut out, self.nonce);
        push_u64_be(&mut out, self.timestamp);
        assert(out@ =~= spec_signing_payload(*self));
        out
    }

    /// The transaction's digest: lowercase hex of SHA-256 over the canonical
    /// signing payload. Clients derive transaction ids from it.
    pub fn calculate_hash(&self) -> (r: Vec<u8>)
        ensures
            r@ == crate::crypto::hex_of(crate::crypto::sha256_of(spec_signing_payload(*self))),
            r@.len() == 64,
    {
        let payload = self.signing_payload();
        let digest = crate::crypto::sha256(payload.as_slice());
        let out = crate::crypto::hex_encode(digest.as_slice());
        proof {
            crate::crypto::lemma_hex_of_len(digest@);
        }
        out
    }

    /// Checks shape and signature: true exactly when the transaction is well
    /// formed and its signature verifies over the canonical payload.
    pub fn verify(&self) -> (r: bool)
        ensures
            r == (tx_wellformed(*self) && tx_sig_valid(*self)),
    {
        let pk = match hex_decode(self.sender.as_slice()) {
            Ok(v) => v,
            Err(_) => return false,
        };
        if pk.len() != 32 {
            return false;
        }
        let sig = match hex_decode(self.signature.as_slice()) {
            Ok(v) => v,
            Err(_) => return false,
        };
        if sig.len() != 64 {
            return false;
        }
        let payload = self.signing_payload();
        ed25519_verify(pk.as_slice(), payload.as_slice(), sig.as_slice())
    }
}

/// The pool of pending, signature-checked transactions.
pub struct Mempool {
    pending: Vec<Transaction>,
}

impl View for Mempool {
    type V = Seq<Transaction>;

    closed spec fn view(&self) -> Seq<Transaction> {
        self.pending@
    }
}

impl Mempool {
    /// Well-formedness: pending ids are pairwise distinct.
    pub open spec fn wf(self) -> bool {
        ids_unique(self@)
    }

    pub fn new() -> (r: Mempool)
        ensures
            r@ == Seq::<Transaction>::empty(),
            r.wf(),
    {
        let m = Mempool { pending: Vec::new() };
        proof {
            assert(m@ =~= Seq::<Transaction>::empty());
        }
        m
    }

    /// The number of pending transactions.
    pub fn size(&self) -> (r: usize)
        ensures
            r == self@.len(),
    {
        self.pending.len()
    }

    /// Checks the transaction at the pool boundary and inserts it if
    /// acceptable: rejects a malformed one, an invalid signature, or a
    /// duplicate id, and otherwise appends it.
    pub fn add_tx(&mut self, tx: Transaction) -> (r: Result<(), TxError>)
        requires
            old(self).wf(),
        ensures
            r == spec_add_result(old(self)@, tx),
            final(self)@ == spec_add_state(old(self)@, tx),
            final(self).wf(),
    {
        if !tx.verify() {
            if !tx_wellformed_exec(&tx) {
                return Err(TxError::Malformed);
            }
            return Err(TxError::InvalidSignature);
        }
        if self.contains_id(&tx.id) {
            return Err(TxError::Duplicate);
        }
        self.pending.push(tx);
        proof {
            let s = old(self)@;
            assert forall|i: int, j: int| 0 <= i < j < final(self)@.len() implies
                #[trigger] final(self)@[i].id@ != #[trigger] final(self)@[j].id@ by {
                if j < s.len() {
                } else {
                    assert(final(self)@[j] == tx);
                    assert(!seq_has_id(s, tx.id@));
                    assert(final(self)@[i] == s[i]);
                }
            }
        }
        Ok(())
    }

    /// Removes and returns up to `n` transactions, oldest first.
    pub fn pop_n(&mut self, n: usize) -> (r: Vec<Transaction>)
        ensures
            r@ == old(self)@.take(min(n as int, old(self)@.len() as int)),
            final(self)@ == old(self)@.skip(min(n as int, old(self)@.len() as int)),
            old(self).wf() ==> final(self).wf(),
    {
        let k: usize = if n <= self.pending.len() {
            n
        } else {
            self.pending.len()
        };
        let mut out: Vec<Transaction> = Vec::new();
        let mut i: usize = 0;
        while i < k
            invariant
                i <= k,
                k == min(n as int, old(self)@.len() as int),
                out@ == old(self)@.take(i as int),
                self.pending@ == old(self)@.skip(i as int),
            decreases k - i,
        {
            let tx = self.pending.remove(0);
            out.push(tx);
            i = i + 1;
            assert(out@ =~= old(self)@.take(i as int));
            assert(self.pending@ =~= old(self)@.skip(i as int));
        }
        proof {
            if old(self).wf() {
                let m = min(n as int, old(self)@.len() as int);
                assert forall|i2: int, j2: int| 0 <= i2 < j2 < final(self)@.len() implies
                    #[trigger] final(self)@[i2].id@ != #[trigger] final(self)@[j2].id@ by {
                    assert(final(self)@[i2] == old(self)@[i2 + m]);
                    assert(final(self)@[j2] == old(self)@[j2 + m]);
                }
            }
        }
        out
    }

    /// Whether a pending transaction already carries this id.
    fn contains_id(&self, id: &Vec<u8>) -> (r: bool)
        ensures
            r == seq_has_id(self@, id@),
    {
        let mut i: usize = 0;
        while i < self.pending.len()
            invariant
                i <= self.pending@.len(),
                forall|j: int| 0 <= j < i ==> #[trigger] self.pending@[j].id@ != id@,
            decreases self.pending@.len() - i,
        {
            if bytes_eq(&self.pending[i].id, id) {
                return true;
            }
            i = i + 1;
        }
        false
    }
}

/// Shape check alone, for telling a malformed transaction from one whose
/// signature merely fails to verify.
fn tx_wellformed_exec(t: &Transaction) -> (r: bool)
    ensures
        r == tx_wellformed(*t),
{
    let pk = match hex_decode(t.sender.as_slice()) {
        Ok(v) => v,
        Err(_) => return false,
    };
    if pk.len() != 32 {
        return false;
    }
    let sig = match hex_decode(t.signature.as_slice()) {
        Ok(v) => v,
        Err(_) => return false,
    };
    sig.len() == 64
}

/// Byte-vector equality.
pub fn bytes_eq(a: &Vec<u8>, b: &Vec<u8>) -> (r: bool)
    ensures
        r == (a@ == b@),
{
    if a.len() != b.len() {
        proof {
            assert(a@ != b@);
        }
        return false;
    }
    let mut i: usize = 0;
    while i < a.len()
        invariant
            i <= a@.len(),
            a@.len() == b@.len(),
            forall|j: int| 0 <= j < i ==> a@[j] == b@[j],
        decreases a@.len() - i,
    {
        if a[i] != b[i] {
            return false;
        }
        i = i + 1;
    }
    proof {
        assert(a@ =~= b@);
    }
    true
}

/// Law: adding a fresh, valid transaction grows the pool by exactly one and
/// is accepted; adding one whose id is already pending is rejected as a
/// duplicate and leaves the pool unchanged.
pub proof fn lemma_mempool_add(s: Seq<Transaction>, t: Transaction)
    requires
        ids_unique(s),
        tx_wellformed(t),
        tx_sig_valid(t),
    ensures
        !seq_has_id(s, t.id@) ==> spec_add_result(s, t) == Ok::<(), TxError>(())
            && spec_add_state(s, t).len() == s.len() + 1,
        seq_has_id(s, t.id@) ==> spec_add_result(s, t) == Err::<(), TxError>(TxError::Duplicate)
            && spec_add_state(s, t) == s,
{
}

/// Law: after a successful add, re-adding any transaction with the same id —
/// the same one or a fresh signature over it — is rejected as a duplicate and
/// leaves the pool's size unchanged.
pub proof fn lemma_mempool_readd_rejected(s: Seq<Transaction>, t: Transaction, t2: Transaction)
    requires
        ids_unique(s),
        tx_wellformed(t),
        tx_sig_valid(t),
        !seq_has_id(s, t.id@),
        t2.id@ == t.id@,
        tx_wellformed(t2),
        tx_sig_valid(t2),
    ensures
        spec_add_result(spec_add_state(s, t), t2) == Err::<(), TxError>(TxError::Duplicate),
        spec_add_state(spec_add_state(s, t), t2) == spec_add_state(s, t),
        spec_add_state(s, t).len() == s.len() + 1,
{
    let s2 = spec_add_state(s, t);
    assert(s2[s.len() as int] == t);
    assert(seq_has_id(s2, t2.id@));
}

} // verus!
