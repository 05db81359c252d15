use log_indexer::hash::{H160, H256};
use log_indexer::ingest::{BlockObservation, FindLogOutcome, GenesisObservation, HeaderObservation};
use log_indexer::schema::EthereumStorageSchema;
use log_indexer::store::{BlockMetadata, IndexStore, Log, PostHashes};

fn metadata(sub: u8, eth: u8, number: u32, txs: Vec<H256>) -> BlockMetadata {
    BlockMetadata {
        substrate_block_hash: H256::repeat_byte(sub),
        block_number: number,
        post_hashes: PostHashes { block_hash: H256::repeat_byte(eth), transaction_hashes: txs },
        schema: EthereumStorageSchema::V3,
        is_canon: true,
    }
}

fn batch() -> Vec<BlockMetadata> {
    vec![
        metadata(1, 0x11, 1, vec![H256::repeat_byte(0x21), H256::repeat_byte(0x22)]),
        metadata(2, 0x12, 2, vec![H256::repeat_byte(0x23)]),
    ]
}

fn snapshot(s: &IndexStore) -> (usize, usize, usize, usize) {
    (s.blocks().len(), s.transactions().len(), s.logs().len(), s.sync_status().len())
}

#[test]
fn metadata_ingestion_is_idempotent() {
    let mut s = IndexStore::new();
    let hashes = vec![H256::repeat_byte(1), H256::repeat_byte(2)];
    s.insert_block_metadata(&batch(), &hashes);
    assert_eq!(snapshot(&s), (2, 3, 0, 2));
    s.insert_block_metadata(&batch(), &hashes);
    assert_eq!(snapshot(&s), (2, 3, 0, 2));
    assert_eq!(s.transactions()[2].ethereum_transaction_index, 0);
    assert_eq!(s.transactions()[1].ethereum_transaction_index, 1);
}

#[test]
fn block_hash_lists_every_fork() {
    let mut s = IndexStore::new();
    s.insert_block_metadata(&vec![metadata(1, 0x11, 1, vec![]), metadata(2, 0x11, 1, vec![]), metadata(3, 0x12, 2, vec![])], &vec![]);
    assert_eq!(s.block_hash(&H256::repeat_byte(0x11)), vec![H256::repeat_byte(1), H256::repeat_byte(2)]);
    assert!(s.block_hash(&H256::repeat_byte(0x13)).is_empty());
}

#[test]
fn transaction_metadata_locates_a_transaction() {
    let mut s = IndexStore::new();
    s.insert_block_metadata(&batch(), &vec![]);
    let m = s.transaction_metadata(&H256::repeat_byte(0x22));
    assert_eq!(m.len(), 1);
    assert_eq!(m[0].block_hash, H256::repeat_byte(1));
    assert_eq!(m[0].ethereum_block_hash, H256::repeat_byte(0x11));
    assert_eq!(m[0].ethereum_index, 1);
    assert!(s.transaction_metadata(&H256::repeat_byte(0x99)).is_empty());
}

#[test]
fn claims_never_overlap() {
    let mut s = IndexStore::new();
    let hashes: Vec<H256> = (1..=5).map(H256::repeat_byte).collect();
    s.insert_block_metadata(&vec![], &hashes);
    let first = s.claim_pending(2);
    assert_eq!(first, vec![H256::repeat_byte(1), H256::repeat_byte(2)]);
    let second = s.claim_pending(10);
    assert_eq!(second, vec![H256::repeat_byte(3), H256::repeat_byte(4), H256::repeat_byte(5)]);
    assert!(s.claim_pending(10).is_empty());
    s.insert_block_metadata(&vec![], &hashes);
    assert!(s.claim_pending(10).is_empty());
}

fn log(li: i32) -> Log {
    Log {
        address: H160::repeat_byte(1).to_vec(),
        topic_1: H256::zero().to_vec(),
        topic_2: H256::zero().to_vec(),
        topic_3: H256::zero().to_vec(),
        topic_4: H256::zero().to_vec(),
        log_index: li,
        transaction_index: 0,
        substrate_block_hash: H256::repeat_byte(1).to_vec(),
    }
}

#[test]
fn replayed_log_writes_are_ignored() {
    let mut s = IndexStore::new();
    s.insert_logs(vec![log(0), log(1)]);
    s.insert_logs(vec![log(1), log(0), log(2)]);
    let indexes: Vec<i32> = s.logs().iter().map(|l| l.log_index).collect();
    assert_eq!(indexes, vec![0, 1, 2]);
}

#[test]
fn retract_then_enact_restores_canon_flags() {
    let mut s = IndexStore::new();
    s.insert_block_metadata(&batch(), &vec![]);
    let x = vec![H256::repeat_byte(1)];
    s.canonicalize(&x, &vec![]);
    assert!(!s.blocks()[0].is_canon);
    assert!(s.blocks()[1].is_canon);
    s.canonicalize(&vec![], &x);
    assert!(s.blocks()[0].is_canon);
    assert!(s.blocks()[1].is_canon);
}

#[test]
fn enacted_wins_over_retracted() {
    let mut s = IndexStore::new();
    s.insert_block_metadata(&batch(), &vec![]);
    let x = vec![H256::repeat_byte(2)];
    s.canonicalize(&x, &x);
    assert!(s.blocks()[1].is_canon);
}

#[test]
fn genesis_is_recorded_when_the_api_is_there() {
    let mut s = IndexStore::new();
    let g = GenesisObservation {
        substrate_genesis_hash: H256::repeat_byte(0x40),
        header_present: true,
        ethereum_genesis: Some((H256::repeat_byte(0x41), EthereumStorageSchema::V3)),
    };
    assert_eq!(s.insert_genesis_block_metadata(&g), Some(H256::repeat_byte(0x40)));
    assert_eq!(s.blocks().len(), 1);
    assert_eq!(s.blocks()[0].block_number, 0);
    assert!(s.blocks()[0].is_canon);
    assert_eq!(s.blocks()[0].ethereum_block_hash, H256::repeat_byte(0x41));
    assert!(s.sync_status().is_empty());
    assert!(s.is_indexed());
}

#[test]
fn genesis_without_header_or_api() {
    let mut s = IndexStore::new();
    let mut g = GenesisObservation {
        substrate_genesis_hash: H256::repeat_byte(0x40),
        header_present: false,
        ethereum_genesis: Some((H256::repeat_byte(0x41), EthereumStorageSchema::V3)),
    };
    assert_eq!(s.insert_genesis_block_metadata(&g), None);
    g.header_present = true;
    g.ethereum_genesis = None;
    assert_eq!(s.insert_genesis_block_metadata(&g), None);
    assert!(s.blocks().is_empty());
}

#[test]
fn observed_batch_is_written_whole_or_not_at_all() {
    let obs = |h: u8, post_log: FindLogOutcome| BlockObservation {
        hash: H256::repeat_byte(h),
        header: Some(HeaderObservation {
            number: h as u64,
            post_log,
            canonical_hash: Some(H256::repeat_byte(h)),
            schema: EthereumStorageSchema::V3,
        }),
    };
    let found = |e: u8| FindLogOutcome::Found(PostHashes { block_hash: H256::repeat_byte(e), transaction_hashes: vec![] });
    let mut s = IndexStore::new();
    assert!(s.insert_observed_blocks(vec![obs(1, found(0x11)), obs(2, FindLogOutcome::MultipleLogs)]).is_err());
    assert_eq!(snapshot(&s), (0, 0, 0, 0));
    assert!(s.insert_observed_blocks(vec![obs(1, found(0x11)), obs(2, FindLogOutcome::NotFound)]).is_ok());
    assert_eq!(snapshot(&s), (1, 0, 0, 2));
    assert!(s.insert_observed_blocks(vec![obs(1, found(0x11)), obs(2, FindLogOutcome::NotFound)]).is_ok());
    assert_eq!(snapshot(&s), (1, 0, 0, 2));
}
