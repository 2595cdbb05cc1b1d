use ed25519_dalek::Signer;
use pappap_core::block::{Block, FatalError};
use pappap_core::chain::PappapChain;
use pappap_core::fixed_point::FixedPoint;
use pappap_core::snn::SNN;
use pappap_core::storage::Storage;
use pappap_core::transaction::{Mempool, Transaction};

fn fresh_chain(tag: &str) -> PappapChain {
    let nanos = std::time::SystemTime::now()
        .duration_since(std::time::UNIX_EPOCH)
        .unwrap()
        .as_nanos();
    let path = format!("/tmp/pappap_testdb_{}_{}", tag, nanos);
    let storage = Storage::new(sled::open(path).unwrap());
    PappapChain::new(storage, Mempool::new(), SNN::new(), b"MINER-TEST".to_vec())
}

fn signed_tx(id: &str, amount: u64, fee: u64) -> Transaction {
    let sk = ed25519_dalek::SigningKey::from_bytes(&[3u8; 32]);
    let vk = sk.verifying_key();
    let mut tx = Transaction {
        id: id.as_bytes().to_vec(),
        sender: hex::encode(vk.to_bytes()).into_bytes(),
        receiver: b"RCV".to_vec(),
        amount,
        fee,
        nonce: 0,
        timestamp: 1700000000,
        signature: Vec::new(),
    };
    let payload = tx.signing_payload();
    tx.signature = hex::encode(sk.sign(&payload).to_bytes()).into_bytes();
    tx
}

#[test]
fn idle_cycle_changes_nothing() {
    let mut chain = fresh_chain("idle");
    assert_eq!(chain.assemble_once(1).unwrap(), None);
    assert_eq!(chain.storage.get_height().unwrap(), 0);
}

#[test]
fn one_cycle_commits_one_block() {
    // submit one transaction (amount 10, fee 1) with a valid keypair
    let mut chain = fresh_chain("one_cycle");
    assert_eq!(chain.mempool.add_tx(signed_tx("tx-1", 10, 1)), Ok(()));
    assert_eq!(chain.mempool.size(), 1);
    // one assembly cycle commits height 1 with exactly that transaction
    let b = chain.assemble_once(1700000200).unwrap().expect("a block must be built");
    assert_eq!(b.index, 1);
    assert_eq!(b.prev_hash, b"0".repeat(64));
    assert_eq!(b.transactions.len(), 1);
    assert_eq!(b.transactions[0].amount, 10);
    assert_eq!(b.transactions[0].fee, 1);
    assert_eq!(chain.storage.get_height().unwrap(), 1);
    assert_eq!(chain.mempool.size(), 0);
    let stored = chain.storage.get_block(1).unwrap().unwrap();
    assert_eq!(stored.transactions.len(), 1);
    // the hash is reproducible from the stored fields
    assert_eq!(stored.calculate_hash(), stored.hash);
    assert_eq!(stored.hash, b.hash);
}

#[test]
fn consecutive_blocks_are_hash_linked() {
    let mut chain = fresh_chain("link");
    assert_eq!(chain.mempool.add_tx(signed_tx("a", 1, 1)), Ok(()));
    let b1 = chain.assemble_once(100).unwrap().unwrap();
    assert_eq!(chain.mempool.add_tx(signed_tx("b", 2, 1)), Ok(()));
    let b2 = chain.assemble_once(101).unwrap().unwrap();
    assert_eq!(chain.mempool.add_tx(signed_tx("c", 3, 1)), Ok(()));
    let b3 = chain.assemble_once(102).unwrap().unwrap();
    assert_eq!(b2.prev_hash, b1.hash);
    assert_eq!(b2.index, b1.index + 1);
    assert_eq!(b3.prev_hash, b2.hash);
    assert_eq!(b3.index, b2.index + 1);
}

#[test]
fn a_cycle_takes_at_most_ten_transactions() {
    let mut chain = fresh_chain("cap");
    for i in 0..12 {
        let id = format!("tx-{}", i);
        assert_eq!(chain.mempool.add_tx(signed_tx(&id, i, 1)), Ok(()));
    }
    let b = chain.assemble_once(100).unwrap().unwrap();
    assert_eq!(b.transactions.len(), 10);
    assert_eq!(b.transactions[0].id, b"tx-0".to_vec());
    assert_eq!(chain.mempool.size(), 2);
}

#[test]
fn forbidden_next_height_is_fatal_and_consumes_nothing() {
    let mut chain = fresh_chain("forbidden");
    // walk the ledger to height 6; height 7 is forbidden
    for i in 1..=6u64 {
        let id = format!("walk-{}", i);
        assert_eq!(chain.mempool.add_tx(signed_tx(&id, i, 1)), Ok(()));
        let b = chain.assemble_once(i).unwrap().unwrap();
        assert_eq!(b.index, i);
    }
    assert_eq!(chain.mempool.add_tx(signed_tx("doomed", 1, 1)), Ok(()));
    assert_eq!(chain.assemble_once(7).unwrap_err(), FatalError::ForbiddenHeight);
    // the fatal path consumed nothing: the transaction is still pending
    assert_eq!(chain.mempool.size(), 1);
    assert_eq!(chain.storage.get_height().unwrap(), 6);
}

#[test]
fn heights_adjacent_to_forbidden_pass() {
    let mut chain = fresh_chain("adjacent");
    // place the ledger just past the forbidden height by committing a block
    // at height 7 + 1 built by hand at the storage level
    let b8 = Block::new(
        8,
        b"0".repeat(64),
        Vec::new(),
        b"M".to_vec(),
        FixedPoint::zero(),
        1,
    )
    .unwrap();
    chain.storage.save_block(&b8).unwrap();
    assert_eq!(chain.storage.get_height().unwrap(), 8);
    assert_eq!(chain.mempool.add_tx(signed_tx("next", 1, 1)), Ok(()));
    let b9 = chain.assemble_once(9).unwrap().unwrap();
    assert_eq!(b9.index, 9);
    assert_eq!(b9.prev_hash, b8.hash);
}

#[test]
fn membrane_check_demands_sizes_and_signature() {
    let mut genesis = vec![0u8; 4089];
    for k in 0..7 {
        genesis[4082 + k] = 7;
    }
    let mut air_gap = vec![0xffu8; 8185];
    for k in 0..7 {
        air_gap[8178 + k] = 7;
    }
    assert!(PappapChain::validate_holy_membrane(&genesis, &air_gap));
    // wrong size
    let short = vec![0u8; 4088];
    assert!(!PappapChain::validate_holy_membrane(&short, &air_gap));
    // corrupted signature byte
    let mut bad = genesis.clone();
    bad[4088] = 6;
    assert!(!PappapChain::validate_holy_membrane(&bad, &air_gap));
}

#[test]
fn exhausted_index_space_is_fatal_and_consumes_nothing() {
    let mut chain = fresh_chain("exhausted");
    // put the ledger at the largest representable height
    let top = Block::new(
        u64::MAX,
        b"0".repeat(64),
        Vec::new(),
        b"M".to_vec(),
        FixedPoint::zero(),
        1,
    )
    .unwrap();
    chain.storage.save_block(&top).unwrap();
    assert_eq!(chain.storage.get_height().unwrap(), u64::MAX);
    assert_eq!(chain.mempool.add_tx(signed_tx("over", 1, 1)), Ok(()));
    assert_eq!(chain.assemble_once(2).unwrap_err(), FatalError::HeightExhausted);
    // the fatal path consumed nothing
    assert_eq!(chain.mempool.size(), 1);
    assert_eq!(chain.storage.get_height().unwrap(), u64::MAX);
}
