use log_indexer::hash::H256;
use log_indexer::ingest::{genesis_block, GenesisObservation};
use log_indexer::query::SqlArg;
use log_indexer::schema::EthereumStorageSchema;
use log_indexer::statements::{block_insert, claim_pending, sync_insert, transaction_insert, INSERT_BLOCK, INSERT_TRANSACTION};
use log_indexer::store::{BlockMetadata, PostHashes};

fn integer(a: &SqlArg) -> i64 {
    match a {
        SqlArg::Integer(i) => *i,
        SqlArg::Blob(_) => panic!("expected an integer"),
    }
}

fn blob(a: &SqlArg) -> Vec<u8> {
    match a {
        SqlArg::Blob(b) => b.clone(),
        SqlArg::Integer(_) => panic!("expected a blob"),
    }
}

fn metadata() -> BlockMetadata {
    BlockMetadata {
        substrate_block_hash: H256::repeat_byte(1),
        block_number: 9,
        post_hashes: PostHashes { block_hash: H256::repeat_byte(2), transaction_hashes: vec![H256::repeat_byte(3), H256::repeat_byte(4)] },
        schema: EthereumStorageSchema::V2,
        is_canon: false,
    }
}

#[test]
fn block_write_binds_hashes_number_schema_and_flag() {
    let q = block_insert(&metadata());
    assert_eq!(q.sql, INSERT_BLOCK);
    assert_eq!(blob(&q.args[0]), vec![2u8; 32]);
    assert_eq!(blob(&q.args[1]), vec![1u8; 32]);
    assert_eq!(integer(&q.args[2]), 9);
    assert_eq!(blob(&q.args[3]), vec![2u8]);
    assert_eq!(integer(&q.args[4]), 0);
}

#[test]
fn transaction_write_binds_its_position() {
    let q = transaction_insert(&metadata(), 1);
    assert_eq!(q.sql, INSERT_TRANSACTION);
    assert_eq!(blob(&q.args[0]), vec![4u8; 32]);
    assert_eq!(integer(&q.args[3]), 1);
}

#[test]
fn queue_and_claim_bind_their_values() {
    assert_eq!(blob(&sync_insert(&H256::repeat_byte(7)).args[0]), vec![7u8; 32]);
    assert_eq!(integer(&claim_pending(25).args[0]), 25);
    assert_eq!(integer(&claim_pending(usize::MAX).args[0]), i64::MAX);
}

#[test]
fn genesis_is_written_only_with_the_api() {
    let g = GenesisObservation {
        substrate_genesis_hash: H256::repeat_byte(5),
        header_present: true,
        ethereum_genesis: Some((H256::repeat_byte(6), EthereumStorageSchema::V3)),
    };
    let m = genesis_block(&g).expect("indexed");
    assert_eq!(m.block_number, 0);
    assert!(m.is_canon);
    let no_api = GenesisObservation { ethereum_genesis: None, ..g };
    assert!(genesis_block(&no_api).is_none());
}
