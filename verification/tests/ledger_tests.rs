use pappap_core::block::Block;
use pappap_core::fixed_point::FixedPoint;
use pappap_core::storage::Storage;

fn fresh_storage(tag: &str) -> Storage {
    let nanos = std::time::SystemTime::now()
        .duration_since(std::time::UNIX_EPOCH)
        .unwrap()
        .as_nanos();
    let path = format!("/tmp/pappap_testdb_{}_{}", tag, nanos);
    Storage::new(sled::open(path).unwrap())
}

#[test]
fn fresh_ledger_reads_genesis_defaults() {
    let s = fresh_storage("genesis");
    assert_eq!(s.get_height().unwrap(), 0);
    assert_eq!(s.get_last_hash().unwrap(), b"0".repeat(64));
    assert!(s.get_block(1).unwrap().is_none());
}

#[test]
fn save_block_updates_all_three_pointers_and_round_trips() {
    let mut s = fresh_storage("save");
    let b = Block::new(
        1,
        b"0".repeat(64),
        Vec::new(),
        b"MINER".to_vec(),
        FixedPoint::from_raw(42),
        1700000000,
    )
    .unwrap();
    s.save_block(&b).unwrap();
    assert_eq!(s.get_height().unwrap(), 1);
    assert_eq!(s.get_last_hash().unwrap(), b.hash);
    let stored = s.get_block(1).unwrap().expect("the committed block must be readable");
    assert_eq!(stored.index, 1);
    assert_eq!(stored.hash, b.hash);
    assert_eq!(stored.calculate_hash(), b.hash);
    assert!(s.get_block(2).unwrap().is_none());
}

#[test]
fn facts_are_stored_and_recalled() {
    let mut s = fresh_storage("facts");
    assert_eq!(s.recall_fact(&b"sky".to_vec()).unwrap(), None);
    s.learn_fact(&b"sky".to_vec(), &b"blue".to_vec()).unwrap();
    assert_eq!(s.recall_fact(&b"sky".to_vec()).unwrap(), Some(b"blue".to_vec()));
    s.learn_fact(&b"sky".to_vec(), &b"dark".to_vec()).unwrap();
    assert_eq!(s.recall_fact(&b"sky".to_vec()).unwrap(), Some(b"dark".to_vec()));
    // the fact cache never shadows the chain pointers
    assert_eq!(s.get_height().unwrap(), 0);
}
