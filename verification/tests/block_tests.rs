use ed25519_dalek::Signer;
use sha2::Digest;
use pappap_core::block::{Block, FatalError, deserialize, is_forbidden_height};
use pappap_core::fixed_point::FixedPoint;
use pappap_core::transaction::Transaction;

fn signed_tx(id: &str) -> Transaction {
    let sk = ed25519_dalek::SigningKey::from_bytes(&[9u8; 32]);
    let vk = sk.verifying_key();
    let mut tx = Transaction {
        id: id.as_bytes().to_vec(),
        sender: hex::encode(vk.to_bytes()).into_bytes(),
        receiver: b"RECEIVER".to_vec(),
        amount: 10,
        fee: 1,
        nonce: 2,
        timestamp: 1700000001,
        signature: Vec::new(),
    };
    let payload = tx.signing_payload();
    tx.signature = hex::encode(sk.sign(&payload).to_bytes()).into_bytes();
    tx
}

fn sample_block(index: u64) -> Block {
    let txs = vec![signed_tx("t1"), signed_tx("t2")];
    Block::new(
        index,
        b"0".repeat(64),
        txs,
        b"MINER-1".to_vec(),
        FixedPoint::from_raw(123456),
        1700000100,
    )
    .unwrap()
}

#[test]
fn forbidden_heights_are_fatal_and_neighbours_are_not() {
    for h in [7u64, 77, 777, 7777, 77777, 777777, 7777777] {
        assert!(is_forbidden_height(h));
        let r = Block::new(h, b"0".repeat(64), Vec::new(), b"M".to_vec(), FixedPoint::zero(), 1);
        assert_eq!(r.unwrap_err(), FatalError::ForbiddenHeight);
        // the immediately adjacent heights must pass
        for n in [h - 1, h + 1] {
            assert!(!is_forbidden_height(n));
            let ok = Block::new(n, b"0".repeat(64), Vec::new(), b"M".to_vec(), FixedPoint::zero(), 1);
            assert!(ok.is_ok());
        }
    }
}

#[test]
fn new_block_is_checked_and_hash_is_reproducible() {
    let b = sample_block(1);
    assert_eq!(b.index, 1);
    assert!(b.forbidden_gene_checked);
    assert_eq!(b.eternal_signature, vec![7u8; 7]);
    assert_eq!(b.hash.len(), 64);
    assert_eq!(b.calculate_hash(), b.hash);
}

#[test]
fn hash_depends_on_every_header_field() {
    let b = sample_block(1);
    let mut changed = b.clone();
    changed.timestamp += 1;
    assert_ne!(changed.calculate_hash(), b.hash);
    let mut changed2 = b.clone();
    changed2.spike_score = FixedPoint::from_raw(123457);
    assert_ne!(changed2.calculate_hash(), b.hash);
    let mut changed3 = b.clone();
    changed3.transactions[0].amount += 1;
    assert_ne!(changed3.calculate_hash(), b.hash);
}

#[test]
fn serialize_deserialize_round_trip() {
    let b = sample_block(2);
    let bytes = b.serialize();
    let d = deserialize(&bytes).expect("round trip must succeed");
    assert_eq!(d.index, b.index);
    assert_eq!(d.timestamp, b.timestamp);
    assert_eq!(d.prev_hash, b.prev_hash);
    assert_eq!(d.hash, b.hash);
    assert_eq!(d.spike_score, b.spike_score);
    assert_eq!(d.miner, b.miner);
    assert_eq!(d.eternal_signature, b.eternal_signature);
    assert_eq!(d.forbidden_gene_checked, b.forbidden_gene_checked);
    assert_eq!(d.transactions.len(), b.transactions.len());
    for (dt, bt) in d.transactions.iter().zip(b.transactions.iter()) {
        assert_eq!(dt, bt);
    }
    // recomputing the hash over the deserialized value reproduces the original
    assert_eq!(d.calculate_hash(), b.hash);
}

#[test]
fn deserialize_rejects_garbage_truncation_and_trailing_bytes() {
    assert!(deserialize(&[]).is_none());
    assert!(deserialize(&[1, 2, 3]).is_none());
    let b = sample_block(3);
    let mut bytes = b.serialize();
    bytes.pop();
    assert!(deserialize(&bytes).is_none());
    let mut bytes2 = b.serialize();
    bytes2.push(0);
    assert!(deserialize(&bytes2).is_none());
}

#[test]
fn empty_block_round_trips_too() {
    let b = Block::new(
        1,
        b"f".repeat(64),
        Vec::new(),
        Vec::new(),
        FixedPoint::from_raw(i64::MIN),
        0,
    )
    .unwrap();
    let d = deserialize(&b.serialize()).unwrap();
    assert_eq!(d.spike_score.raw, i64::MIN);
    assert_eq!(d.transactions.len(), 0);
    assert_eq!(d.hash, b.hash);
}

#[test]
fn block_hash_matches_an_independent_sha256_of_the_header() {
    let b = sample_block(4);
    let header = b.header_bytes();
    let mut hasher = sha2::Sha256::new();
    hasher.update(&header);
    let expected = hex::encode(hasher.finalize()).into_bytes();
    assert_eq!(b.hash, expected);
    assert_eq!(b.hash.len(), 64);
}
