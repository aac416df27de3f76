use blockchain::block::Block;
use blockchain::ledger::{BlockLedger, IntegrityError};

fn is_lower_hex(s: &str) -> bool {
    s.chars().all(|c| c.is_ascii_digit() || ('a'..='f').contains(&c))
}

fn three_block_ledger() -> BlockLedger {
    let mut ledger = BlockLedger::new();
    ledger.create_genesis(String::from("Genesis Block"));
    ledger.append(String::from("tx1")).unwrap();
    ledger.append(String::from("tx2")).unwrap();
    ledger
}

#[test]
fn genesis_has_sentinel_and_verifies() {
    let mut ledger = BlockLedger::new();
    let g = ledger.create_genesis(String::from("payload"));
    assert_eq!(g.previous_hash, "0");
    assert_eq!(g.index, 0);
    assert_eq!(ledger.blocks.len(), 1);
    assert_eq!(ledger.verify(), Ok(()));
}

#[test]
fn genesis_of_any_payload_has_sentinel() {
    for payload in ["", "a", "Genesis Block", "\u{263a} bytes"] {
        let mut ledger = BlockLedger::new();
        let g = ledger.create_genesis(String::from(payload));
        assert_eq!(g.previous_hash, "0");
        assert_eq!(g.data, payload);
        assert_eq!(ledger.verify(), Ok(()));
    }
}

#[test]
fn appended_blocks_are_indexed_in_order() {
    let mut ledger = BlockLedger::new();
    ledger.create_genesis(String::from("g"));
    for payload in ["d1", "d2", "d3", "d4"] {
        ledger.append(String::from(payload)).unwrap();
    }
    for (i, b) in ledger.blocks.iter().enumerate() {
        assert_eq!(b.index, i as u64);
    }
    assert_eq!(ledger.verify(), Ok(()));
}

#[test]
fn hash_is_deterministic_and_lower_hex() {
    let h1 = Block::calculate_hash(3, 1_700_000_000, "payload", "abcd");
    let h2 = Block::calculate_hash(3, 1_700_000_000, "payload", "abcd");
    assert_eq!(h1, h2);
    assert_eq!(h1.len(), 64);
    assert!(is_lower_hex(&h1));
}

#[test]
fn hash_depends_on_every_field() {
    let base = Block::calculate_hash(3, 50, "payload", "abcd");
    assert_ne!(base, Block::calculate_hash(4, 50, "payload", "abcd"));
    assert_ne!(base, Block::calculate_hash(3, 51, "payload", "abcd"));
    assert_ne!(base, Block::calculate_hash(3, 50, "payloae", "abcd"));
    assert_ne!(base, Block::calculate_hash(3, 50, "payload", "abce"));
}

#[test]
fn tampering_with_data_is_detected() {
    let mut ledger = three_block_ledger();
    ledger.blocks[1].data = String::from("tampered");
    assert_eq!(ledger.verify(), Err(IntegrityError::HashMismatch(1)));
}

#[test]
fn tampering_with_index_is_detected() {
    let mut ledger = three_block_ledger();
    ledger.blocks[2].index = 7;
    assert_eq!(ledger.verify(), Err(IntegrityError::HashMismatch(2)));
}

#[test]
fn tampering_with_timestamp_is_detected() {
    let mut ledger = three_block_ledger();
    ledger.blocks[0].timestamp = ledger.blocks[0].timestamp.wrapping_add(1);
    assert_eq!(ledger.verify(), Err(IntegrityError::HashMismatch(0)));
}

#[test]
fn tampering_with_previous_hash_is_detected() {
    let mut ledger = three_block_ledger();
    ledger.blocks[2].previous_hash = ledger.blocks[0].hash.clone();
    assert_eq!(ledger.verify(), Err(IntegrityError::HashMismatch(2)));
}

#[test]
fn tampering_with_stored_hash_is_detected() {
    let mut ledger = three_block_ledger();
    let mut wrong = String::from("f");
    wrong.push_str(&ledger.blocks[1].hash[1..]);
    ledger.blocks[1].hash = wrong;
    assert_eq!(ledger.verify(), Err(IntegrityError::HashMismatch(1)));
}

#[test]
fn relinking_with_recomputed_hash_is_a_broken_link() {
    let mut ledger = three_block_ledger();
    let b = &ledger.blocks[2];
    let foreign = ledger.blocks[0].hash.clone();
    assert_ne!(foreign, ledger.blocks[1].hash);
    let rehashed = Block::calculate_hash(b.index, b.timestamp, &b.data, &foreign);
    ledger.blocks[2].previous_hash = foreign;
    ledger.blocks[2].hash = rehashed;
    assert_eq!(ledger.verify(), Err(IntegrityError::BrokenLink(2)));
}

#[test]
fn wrong_genesis_sentinel_is_detected() {
    let mut ledger = three_block_ledger();
    let g = &ledger.blocks[0];
    let rehashed = Block::calculate_hash(g.index, g.timestamp, &g.data, "1");
    ledger.blocks[0].previous_hash = String::from("1");
    ledger.blocks[0].hash = rehashed;
    assert_eq!(ledger.verify(), Err(IntegrityError::InvalidGenesis));
}

#[test]
fn earliest_violation_is_reported() {
    let mut ledger = three_block_ledger();
    ledger.blocks[1].data = String::from("tampered");
    ledger.blocks[2].data = String::from("also tampered");
    assert_eq!(ledger.verify(), Err(IntegrityError::HashMismatch(1)));
}

#[test]
fn append_on_empty_ledger_fails() {
    let mut ledger = BlockLedger::new();
    let r = ledger.append(String::from("tx1"));
    assert!(matches!(r, Err(IntegrityError::EmptyLedger)));
    assert_eq!(ledger.blocks.len(), 0);
}

#[test]
fn full_scenario_genesis_two_appends_and_corruption() {
    let mut ledger = BlockLedger::new();
    let g = ledger.create_genesis(String::from("Genesis Block"));
    assert_eq!(g.previous_hash, "0");
    assert_eq!(ledger.verify(), Ok(()));
    ledger.append(String::from("tx1")).unwrap();
    ledger.append(String::from("tx2")).unwrap();
    assert_eq!(ledger.blocks.len(), 3);
    assert_eq!(ledger.blocks[2].previous_hash, ledger.blocks[1].hash);
    assert_eq!(ledger.verify(), Ok(()));
    ledger.blocks[1].data = String::from("corrupted");
    assert_eq!(ledger.verify(), Err(IntegrityError::HashMismatch(1)));
}

#[test]
fn block_new_links_and_hashes() {
    let b = Block::new(0, String::from("Genesis Block"), String::from("0"));
    assert_eq!(b.index, 0);
    assert_eq!(b.data, "Genesis Block");
    assert_eq!(b.previous_hash, "0");
    let recomputed = Block::calculate_hash(b.index, b.timestamp, &b.data, &b.previous_hash);
    assert_eq!(*b.hash(), recomputed);
    assert_eq!(b.hash().len(), 64);
    assert!(is_lower_hex(b.hash()));
}

#[test]
fn appended_block_equals_stored_tail() {
    let mut ledger = BlockLedger::new();
    ledger.create_genesis(String::from("g"));
    let appended = ledger.append(String::from("tx")).unwrap();
    let tail = ledger.blocks.last().unwrap();
    assert_eq!(appended.index, tail.index);
    assert_eq!(appended.timestamp, tail.timestamp);
    assert_eq!(appended.data, tail.data);
    assert_eq!(appended.previous_hash, tail.previous_hash);
    assert_eq!(appended.hash, tail.hash);
    assert_eq!(appended.previous_hash, ledger.blocks[0].hash);
}
