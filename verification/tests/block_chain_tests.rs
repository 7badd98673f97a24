use simple_blockchain::{Block, BlockChain};

#[test]
fn adding_new_blocks_generates_a_valid_blockchain() {
    let mut blockchain = BlockChain::default();
    let new_block = Block::new(&blockchain, [2; 256]);
    assert!(blockchain.push_block(new_block).is_ok());
    let new_block = Block::new(&blockchain, [2; 256]);
    assert!(blockchain.push_block(new_block).is_ok());
    let new_block = Block::new(&blockchain, [2; 256]);
    assert!(blockchain.push_block(new_block).is_ok());

    assert!(blockchain.is_valid_chain());
}

#[test]
fn invalid_blockchain_is_detected() {
    let mut blockchain = BlockChain::default();
    let new_block = Block::new(&blockchain, [2; 256]);
    assert!(blockchain.push_block(new_block.clone()).is_ok());

    blockchain.block_chain.push(new_block);
    assert!(!blockchain.is_valid_chain());
}

#[test]
fn test_successfull_chain_integration() {
    let mut default_chain = BlockChain::default();
    let mut chain = BlockChain::default();
    let block = Block::new(&chain, [2; 256]);
    assert!(chain.push_block(block).is_ok());
    let chain_length = chain.length();
    let chain_last_block = chain.retrieve_latest_block().clone();
    assert!(default_chain.integrate_chain(chain).is_ok());
    assert_eq!(default_chain.length(), chain_length);
    assert!(*default_chain.retrieve_latest_block() == chain_last_block);
}

#[test]
fn test_unsuccessfull_chain_integration() {
    let mut default_chain = BlockChain::default();
    let mut chain = BlockChain::default();
    let block = Block::new(&chain, [2; 256]);
    assert!(chain.push_block(block).is_ok());

    let block = Block::new(&default_chain, [2; 256]);
    assert!(default_chain.push_block(block).is_ok());

    let chain_last_block = chain.retrieve_latest_block().clone();
    assert!(default_chain.integrate_chain(chain).is_err());
    assert!(*default_chain.retrieve_latest_block() != chain_last_block);
}

#[test]
fn default_chain_has_length_one_and_is_valid() {
    let blockchain = BlockChain::default();
    assert_eq!(blockchain.length(), 1);
    assert!(blockchain.is_valid_chain());
}

#[test]
fn appending_n_valid_blocks_grows_the_chain() {
    let mut blockchain = BlockChain::default();
    for _ in 0..5 {
        let block = Block::new(&blockchain, [4; 256]);
        assert!(blockchain.push_block(block).is_ok());
    }
    assert_eq!(blockchain.length(), 6);
    assert!(blockchain.is_valid_chain());
}

#[test]
fn tampered_blocks_are_rejected_and_leave_the_chain_unchanged() {
    let mut blockchain = BlockChain::default();

    let mut block = Block::new(&blockchain, [2; 256]);
    block.index += 1;
    let rejected = blockchain.push_block(block);
    assert!(rejected.is_err());
    assert_eq!(rejected.unwrap_err().index, 2);
    assert_eq!(blockchain.length(), 1);

    let mut block = Block::new(&blockchain, [2; 256]);
    block.previous_hash = String::from("0");
    assert!(blockchain.push_block(block).is_err());
    assert_eq!(blockchain.length(), 1);
}

#[test]
fn empty_chain_is_trivially_valid() {
    let blockchain = BlockChain {
        block_chain: Vec::new(),
    };
    assert_eq!(blockchain.length(), 0);
    assert!(blockchain.is_valid_chain());
}

#[test]
fn equal_length_chains_are_not_integrated() {
    let mut left = BlockChain::default();
    let right = BlockChain::default();
    let rejected = left.integrate_chain(right);
    assert!(rejected.is_err());
    assert_eq!(rejected.unwrap_err().length(), 1);
    assert_eq!(left.length(), 1);
}
