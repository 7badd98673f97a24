use simple_blockchain::block::{compute_hash, genesis_block, Timestamp};
use simple_blockchain::{Block, BlockChain};

#[test]
fn new_blocks_are_valid() {
    let blockchain = BlockChain::default();
    let genesis = blockchain.retrieve_latest_block();
    let new_block = Block::new(&blockchain, [2; 256]);
    assert!(new_block.is_valid_successor_of(&genesis))
}

#[test]
fn other_blocks_are_not_valid() {
    let mut blockchain = BlockChain::default();
    let genesis = blockchain.retrieve_latest_block().clone();
    let new_block = Block::new(&blockchain, [2; 256]);
    assert!(blockchain.push_block(new_block).is_ok());
    let new_block = Block::new(&blockchain, [2; 256]);
    assert!(!new_block.is_valid_successor_of(&genesis))
}

#[test]
fn block_is_equal_to_itself() {
    let blockchain = BlockChain::default();
    let block = Block::new(&blockchain, [3; 256]);

    assert!(block == block);
}

#[test]
fn different_blocks_are_not_equal() {
    let blockchain = BlockChain::default();
    let block = Block::new(&blockchain, [3; 256]);
    let block2 = Block::new(&blockchain, [3; 256]);

    // These two blocks will have a different hash and timestamp
    assert!(block != block2);

    // Check for different data
    let block = Block::new(&blockchain, [3; 256]);
    let mut block2 = block.clone();
    block2.data = [1; 256];

    assert!(block != block2);
}

#[test]
fn genesis_block_is_self_consistent() {
    let genesis = genesis_block();
    assert_eq!(genesis.index, 0);
    assert_eq!(genesis.previous_hash, "0");
    assert!(genesis.data.iter().all(|b| *b == 0));
    assert!(genesis.has_valid_hash());
}

#[test]
fn fresh_blocks_have_valid_hashes() {
    let blockchain = BlockChain::default();
    let block = Block::new(&blockchain, [9; 256]);
    assert!(block.has_valid_hash());
}

#[test]
fn tampering_with_any_field_invalidates_the_hash() {
    let blockchain = BlockChain::default();
    let block = Block::new(&blockchain, [9; 256]);

    let mut tampered = block.clone();
    tampered.data[17] ^= 1;
    assert!(!tampered.has_valid_hash());

    let mut tampered = block.clone();
    tampered.index += 1;
    assert!(!tampered.has_valid_hash());

    let mut tampered = block.clone();
    tampered.timestamp = Timestamp {
        secs: block.timestamp.secs + 1,
        nanos: block.timestamp.nanos,
    };
    assert!(!tampered.has_valid_hash());

    let mut tampered = block.clone();
    tampered.previous_hash = String::from("1");
    assert!(!tampered.has_valid_hash());

    let mut tampered = block.clone();
    tampered.hash = String::from("0");
    assert!(!tampered.has_valid_hash());
}

#[test]
fn digest_has_known_value_on_fixed_fields() {
    let ts = Timestamp { secs: 0, nanos: 0 };
    let hash = compute_hash(0, &ts, &[0; 256], "0");
    assert_eq!(
        hash,
        "49a3faa5381b4c5bc55219f3f848e3eaf56a3fed6cbc2883ca62106e4f6a2c39"
    );

    let ts = Timestamp { secs: -5, nanos: 7 };
    let hash = compute_hash(3, &ts, &[1; 256], "ab");
    assert_eq!(
        hash,
        "cbabd2bf2dc4e01fe045d9929dd0e5c09f91b0e77adce4975c2d4cfcf8d0238e"
    );
}

#[test]
fn digest_is_deterministic() {
    let ts = Timestamp {
        secs: 1700000000,
        nanos: 123456789,
    };
    let first = compute_hash(42, &ts, &[7; 256], "abcdef");
    let second = compute_hash(42, &ts, &[7; 256], "abcdef");
    assert_eq!(first, second);
}

#[test]
fn digest_depends_on_every_field() {
    let ts = Timestamp { secs: 10, nanos: 20 };
    let base = compute_hash(1, &ts, &[0; 256], "aa");
    assert_ne!(base, compute_hash(2, &ts, &[0; 256], "aa"));
    let other_ts = Timestamp { secs: 10, nanos: 21 };
    assert_ne!(base, compute_hash(1, &other_ts, &[0; 256], "aa"));
    assert_ne!(base, compute_hash(1, &ts, &[1; 256], "aa"));
    assert_ne!(base, compute_hash(1, &ts, &[0; 256], "ab"));
}
