use blockchain::block::{hash_contents, Block, BlockHash};
use blockchain::encoding::{contents_bytes, push_bytes, push_text, push_transaction};
use blockchain::hex::to_hex;
use blockchain::sha256::sha256;
use blockchain::transaction::{clone_transactions, same_transactions, Transaction};

fn sample_transactions() -> Vec<Transaction> {
    vec![
        Transaction::new("alice".to_string(), "bob".to_string(), 5),
        Transaction::new("b\u{e9}a".to_string(), String::new(), u64::MAX),
    ]
}

const GENESIS_HASH: &str = "d4817aa5497628e7c77e6b606107042bbba3130888c5f47a375e6179be789fbb";

#[test]
fn default_hash_is_all_zero() {
    assert_eq!(BlockHash::default().bytes, [0u8; 32]);
    assert_eq!(BlockHash::default(), BlockHash { bytes: [0u8; 32] });
}

#[test]
fn hashes_compare_byte_by_byte() {
    let zero = BlockHash::default();
    let mut last = [0u8; 32];
    last[31] = 1;
    let mut first = [0u8; 32];
    first[0] = 1;
    assert_ne!(zero, BlockHash { bytes: last });
    assert_ne!(zero, BlockHash { bytes: first });
    assert_eq!(BlockHash { bytes: last }, BlockHash { bytes: last });
}

#[test]
fn text_is_length_prefixed_utf8() {
    let mut out = Vec::new();
    push_text(&mut out, "b\u{e9}a");
    assert_eq!(out, vec![0, 0, 0, 0, 0, 0, 0, 4, 98, 195, 169, 97]);
    let mut empty = vec![7u8];
    push_text(&mut empty, "");
    assert_eq!(empty, vec![7, 0, 0, 0, 0, 0, 0, 0, 0]);
}

#[test]
fn bytes_are_appended_in_order() {
    let mut out = vec![1u8, 2];
    push_bytes(&mut out, &[3, 4, 5]);
    assert_eq!(out, vec![1, 2, 3, 4, 5]);
    push_bytes(&mut out, &[]);
    assert_eq!(out, vec![1, 2, 3, 4, 5]);
}

#[test]
fn transaction_is_sender_recipient_amount() {
    let mut out = Vec::new();
    push_transaction(&mut out, &Transaction::new("alice".to_string(), "bob".to_string(), 5));
    assert_eq!(
        to_hex(&out),
        "0000000000000005616c6963650000000000000003626f620000000000000005"
    );
}

#[test]
fn contents_of_genesis_are_56_zero_bytes() {
    let bytes = contents_bytes(0, 0, &[0u8; 32], &Vec::new());
    assert_eq!(bytes, vec![0u8; 56]);
}

#[test]
fn contents_are_encoded_field_by_field() {
    let previous = sha256(&[0u8; 56]);
    let bytes = contents_bytes(7, 42, &previous, &sample_transactions());
    assert_eq!(
        to_hex(&bytes),
        "0000000000000007000000000000002ad4817aa5497628e7c77e6b606107042bbba3130888c5f47a375e6179be789fbb00000000000000020000000000000005616c6963650000000000000003626f620000000000000005000000000000000462c3a9610000000000000000ffffffffffffffff"
    );
}

#[test]
fn hash_is_the_digest_of_the_encoded_contents() {
    let previous = BlockHash { bytes: sha256(&[0u8; 56]) };
    let h = hash_contents(7, 42, &previous, &sample_transactions());
    assert_eq!(
        to_hex(&h.bytes),
        "a4ccbdaa88650e54de07a55ce702b8562b403f101a28ca41c0a16a0a3dd1dd11"
    );
}

#[test]
fn new_block_is_sealed_with_the_hash_of_its_contents() {
    let block = Block::new(0, 0, BlockHash::default(), Vec::new());
    assert_eq!(block.index, 0);
    assert_eq!(block.nonce, 0);
    assert_eq!(block.previous_hash, BlockHash::default());
    assert!(block.transactions.is_empty());
    assert_eq!(to_hex(&block.hash.bytes), GENESIS_HASH);
    assert_eq!(block.hash.to_hex(), GENESIS_HASH);
    assert_eq!(BlockHash::default().to_hex(), "0".repeat(64));
    assert_eq!(block.calculate_hash(), block.hash);

    let next = Block::new(1, 0, block.hash, Vec::new());
    assert_eq!(
        to_hex(&next.hash.bytes),
        "a89e3ab0357e6d2f9a2971eda0fc257db2f101907eda4fe6f6c4d2e9f5c1d39e"
    );
}

#[test]
fn every_field_enters_the_hash() {
    let base = Block::new(3, 4, BlockHash::default(), sample_transactions());
    let other_index = Block::new(4, 4, BlockHash::default(), sample_transactions());
    let other_nonce = Block::new(3, 5, BlockHash::default(), sample_transactions());
    let other_previous = Block::new(3, 4, base.hash, sample_transactions());
    let other_transactions = Block::new(3, 4, BlockHash::default(), Vec::new());
    assert_ne!(base.hash, other_index.hash);
    assert_ne!(base.hash, other_nonce.hash);
    assert_ne!(base.hash, other_previous.hash);
    assert_ne!(base.hash, other_transactions.hash);
}

#[test]
fn length_prefixes_keep_texts_apart() {
    let a = vec![Transaction::new("ab".to_string(), "c".to_string(), 1)];
    let b = vec![Transaction::new("a".to_string(), "bc".to_string(), 1)];
    assert_ne!(
        hash_contents(1, 0, &BlockHash::default(), &a),
        hash_contents(1, 0, &BlockHash::default(), &b)
    );
}

#[test]
fn recomputation_detects_a_changed_field() {
    let mut block = Block::new(1, 0, BlockHash::default(), sample_transactions());
    assert_eq!(block.calculate_hash(), block.hash);
    block.nonce = 1;
    assert_ne!(block.calculate_hash(), block.hash);
}

#[test]
fn clone_keeps_every_field() {
    let block = Block::new(9, 8, BlockHash::default(), sample_transactions());
    let copy = block.clone();
    assert_eq!(copy, block);
    assert_eq!(copy.index, 9);
    assert_eq!(copy.nonce, 8);
    assert_eq!(copy.hash, block.hash);
    assert_eq!(copy.transactions.len(), 2);
    assert_eq!(copy.transactions[0].sender, "alice");
    assert_eq!(copy.transactions[1].amount, u64::MAX);
}

#[test]
fn blocks_are_equal_when_all_fields_are() {
    let block = Block::new(1, 0, BlockHash::default(), sample_transactions());
    let mut changed = block.clone();
    changed.transactions[1].recipient = "x".to_string();
    assert_ne!(changed, block);
    let mut shorter = block.clone();
    shorter.transactions.pop();
    assert_ne!(shorter, block);
    let mut other_hash = block.clone();
    other_hash.hash = BlockHash::default();
    assert_ne!(other_hash, block);
}

#[test]
fn transaction_lists_compare_and_copy_in_order() {
    let ts = sample_transactions();
    let copy = clone_transactions(&ts);
    assert!(same_transactions(&ts, &copy));
    let mut reversed = clone_transactions(&ts);
    reversed.reverse();
    assert!(!same_transactions(&ts, &reversed));
    assert!(same_transactions(&Vec::new(), &Vec::new()));
    assert!(!same_transactions(&ts, &Vec::new()));
    assert_eq!(ts[0].clone(), ts[0]);
    assert_ne!(ts[0], ts[1]);
}
