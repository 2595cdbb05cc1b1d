use ed25519_dalek::Signer;
use sha2::Digest;
use pappap_core::transaction::{Mempool, Transaction, TxError};

fn signed_tx(id: &str, amount: u64, fee: u64, key_seed: u8) -> Transaction {
    let sk = ed25519_dalek::SigningKey::from_bytes(&[key_seed; 32]);
    let vk = sk.verifying_key();
    let mut tx = Transaction {
        id: id.as_bytes().to_vec(),
        sender: hex::encode(vk.to_bytes()).into_bytes(),
        receiver: b"PAPPAPRECEIVER".to_vec(),
        amount,
        fee,
        nonce: 1,
        timestamp: 1700000000,
        signature: Vec::new(),
    };
    let payload = tx.signing_payload();
    tx.signature = hex::encode(sk.sign(&payload).to_bytes()).into_bytes();
    tx
}

#[test]
fn add_valid_tx_grows_pool_by_one() {
    let mut pool = Mempool::new();
    assert_eq!(pool.size(), 0);
    let tx = signed_tx("tx-1", 10, 1, 7);
    assert!(tx.verify());
    assert_eq!(pool.add_tx(tx), Ok(()));
    assert_eq!(pool.size(), 1);
}

#[test]
fn readding_same_id_is_rejected_and_size_unchanged() {
    let mut pool = Mempool::new();
    let tx = signed_tx("tx-1", 10, 1, 7);
    assert_eq!(pool.add_tx(tx.clone()), Ok(()));
    assert_eq!(pool.size(), 1);
    assert_eq!(pool.add_tx(tx), Err(TxError::Duplicate));
    assert_eq!(pool.size(), 1);
    // a different transaction under the same id is also a duplicate
    let mut other = signed_tx("tx-1", 99, 9, 8);
    assert!(other.verify());
    assert_eq!(pool.add_tx(other.clone()), Err(TxError::Duplicate));
    assert_eq!(pool.size(), 1);
    other.id = b"tx-2".to_vec();
    // the id is outside the signed payload, so the signature still holds
    assert_eq!(pool.add_tx(other), Ok(()));
    assert_eq!(pool.size(), 2);
}

#[test]
fn corrupted_signature_is_rejected_and_size_stays_zero() {
    let mut pool = Mempool::new();
    let mut tx = signed_tx("tx-1", 10, 1, 7);
    // flip one signature byte: '0' becomes '1', still valid hex
    let b = tx.signature[0];
    tx.signature[0] = if b == b'0' { b'1' } else { b'0' };
    assert!(!tx.verify());
    assert_eq!(pool.add_tx(tx), Err(TxError::InvalidSignature));
    assert_eq!(pool.size(), 0);
}

#[test]
fn malformed_sender_or_signature_is_rejected_as_malformed() {
    let mut pool = Mempool::new();
    let mut tx = signed_tx("tx-1", 10, 1, 7);
    tx.sender = b"not-hex!".to_vec();
    assert_eq!(pool.add_tx(tx), Err(TxError::Malformed));
    assert_eq!(pool.size(), 0);

    let mut tx2 = signed_tx("tx-2", 10, 1, 7);
    tx2.signature.truncate(10);
    assert_eq!(pool.add_tx(tx2), Err(TxError::Malformed));
    assert_eq!(pool.size(), 0);

    // wrong key length: 16 bytes of valid hex
    let mut tx3 = signed_tx("tx-3", 10, 1, 7);
    tx3.sender = hex::encode([5u8; 16]).into_bytes();
    assert_eq!(pool.add_tx(tx3), Err(TxError::Malformed));
}

#[test]
fn tampered_amount_invalidates_signature() {
    let mut pool = Mempool::new();
    let mut tx = signed_tx("tx-1", 10, 1, 7);
    tx.amount = 1000;
    assert!(!tx.verify());
    assert_eq!(pool.add_tx(tx), Err(TxError::InvalidSignature));
}

#[test]
fn pop_n_removes_oldest_first() {
    let mut pool = Mempool::new();
    for (i, id) in ["a", "b", "c", "d"].iter().enumerate() {
        let tx = signed_tx(id, 10 + i as u64, 1, 7);
        assert_eq!(pool.add_tx(tx), Ok(()));
    }
    assert_eq!(pool.size(), 4);
    let popped = pool.pop_n(3);
    assert_eq!(popped.len(), 3);
    assert_eq!(popped[0].id, b"a".to_vec());
    assert_eq!(popped[1].id, b"b".to_vec());
    assert_eq!(popped[2].id, b"c".to_vec());
    assert_eq!(pool.size(), 1);
    let rest = pool.pop_n(10);
    assert_eq!(rest.len(), 1);
    assert_eq!(rest[0].id, b"d".to_vec());
    assert_eq!(pool.size(), 0);
}

#[test]
fn transaction_hash_is_sha256_of_the_signing_payload() {
    let tx = signed_tx("tx-1", 10, 1, 7);
    let payload = tx.signing_payload();
    let mut hasher = sha2::Sha256::new();
    hasher.update(&payload);
    let expected = hex::encode(hasher.finalize()).into_bytes();
    assert_eq!(tx.calculate_hash(), expected);
    // any payload field moves the digest
    let mut other = tx.clone();
    other.nonce += 1;
    assert_ne!(other.calculate_hash(), tx.calculate_hash());
}

#[test]
fn uppercase_hex_fields_are_accepted() {
    let mut pool = Mempool::new();
    let mut tx = signed_tx("tx-upper", 10, 1, 7);
    // the sender is part of the signed payload and must stay as signed; the
    // signature field itself may carry either hex case
    tx.signature = tx.signature.to_ascii_uppercase();
    assert!(tx.verify());
    assert_eq!(pool.add_tx(tx), Ok(()));
    assert_eq!(pool.size(), 1);
}
