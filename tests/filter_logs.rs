use log_indexer::hash::{H160, H256};
use log_indexer::query::FilterError;
use log_indexer::schema::EthereumStorageSchema;
use log_indexer::store::{BlockMetadata, FilteredLog, IndexStore, Log, PostHashes};

#[derive(Clone, Copy)]
struct TestLog {
    block_number: u32,
    address: H160,
    topics: [H256; 4],
    substrate_block_hash: H256,
    ethereum_block_hash: H256,
    transaction_index: u32,
    log_index: u32,
}

impl TestLog {
    fn row(&self) -> Log {
        Log {
            address: self.address.to_vec(),
            topic_1: self.topics[0].to_vec(),
            topic_2: self.topics[1].to_vec(),
            topic_3: self.topics[2].to_vec(),
            topic_4: self.topics[3].to_vec(),
            log_index: self.log_index as i32,
            transaction_index: self.transaction_index as i32,
            substrate_block_hash: self.substrate_block_hash.to_vec(),
        }
    }

    fn filtered(&self) -> FilteredLog {
        FilteredLog {
            substrate_block_hash: self.substrate_block_hash,
            ethereum_block_hash: self.ethereum_block_hash,
            block_number: self.block_number,
            ethereum_storage_schema: EthereumStorageSchema::V3,
            transaction_index: self.transaction_index,
            log_index: self.log_index,
        }
    }
}

struct TestData {
    backend: IndexStore,
    alice: H160,
    bob: H160,
    topics_a: H256,
    topics_b: H256,
    topics_c: H256,
    topics_d: H256,
    substrate_hash_1: H256,
    substrate_hash_2: H256,
    substrate_hash_3: H256,
    log_1_abcd_0_0_alice: TestLog,
    log_1_dcba_1_0_alice: TestLog,
    log_1_badc_2_0_alice: TestLog,
    log_2_abcd_0_0_bob: TestLog,
    log_2_dcba_1_0_bob: TestLog,
    log_2_badc_2_0_bob: TestLog,
    log_3_abcd_0_0_bob: TestLog,
    log_3_dcba_1_0_bob: TestLog,
    log_3_badc_2_0_bob: TestLog,
}

fn block(number: u32, ethereum_hash: H256, substrate_hash: H256) -> BlockMetadata {
    BlockMetadata {
        substrate_block_hash: substrate_hash,
        block_number: number,
        post_hashes: PostHashes { block_hash: ethereum_hash, transaction_hashes: vec![] },
        schema: EthereumStorageSchema::V3,
        is_canon: true,
    }
}

fn prepare() -> TestData {
    let alice = H160::repeat_byte(0x01);
    let bob = H160::repeat_byte(0x02);
    let topics_a = H256::repeat_byte(0x01);
    let topics_b = H256::repeat_byte(0x02);
    let topics_c = H256::repeat_byte(0x03);
    let topics_d = H256::repeat_byte(0x04);
    let substrate_hash_1 = H256::repeat_byte(0x05);
    let substrate_hash_2 = H256::repeat_byte(0x06);
    let substrate_hash_3 = H256::repeat_byte(0x07);
    let ethereum_hash_1 = H256::repeat_byte(0x08);
    let ethereum_hash_2 = H256::repeat_byte(0x09);
    let ethereum_hash_3 = H256::repeat_byte(0x0a);

    let mut backend = IndexStore::new();
    backend.insert_block_metadata(
        &vec![
            block(1, ethereum_hash_1, substrate_hash_1),
            block(2, ethereum_hash_2, substrate_hash_2),
            block(3, ethereum_hash_3, substrate_hash_3),
        ],
        &vec![],
    );

    let mk = |block_number: u32, address: H160, topics: [H256; 4], log_index: u32, substrate_block_hash: H256, ethereum_block_hash: H256| TestLog {
        block_number,
        address,
        topics,
        substrate_block_hash,
        ethereum_block_hash,
        transaction_index: 0,
        log_index,
    };
    let abcd = [topics_a, topics_b, topics_c, topics_d];
    let dcba = [topics_d, topics_c, topics_b, topics_a];
    let badc = [topics_b, topics_a, topics_d, topics_c];
    let log_1_abcd_0_0_alice = mk(1, alice, abcd, 0, substrate_hash_1, ethereum_hash_1);
    let log_1_dcba_1_0_alice = mk(1, alice, dcba, 1, substrate_hash_1, ethereum_hash_1);
    let log_1_badc_2_0_alice = mk(1, alice, badc, 2, substrate_hash_1, ethereum_hash_1);
    let log_2_abcd_0_0_bob = mk(2, bob, abcd, 0, substrate_hash_2, ethereum_hash_2);
    let log_2_dcba_1_0_bob = mk(2, bob, dcba, 1, substrate_hash_2, ethereum_hash_2);
    let log_2_badc_2_0_bob = mk(2, bob, badc, 2, substrate_hash_2, ethereum_hash_2);
    let log_3_abcd_0_0_bob = mk(3, bob, abcd, 0, substrate_hash_3, ethereum_hash_3);
    let log_3_dcba_1_0_bob = mk(3, bob, dcba, 1, substrate_hash_3, ethereum_hash_3);
    let log_3_badc_2_0_bob = mk(3, bob, badc, 2, substrate_hash_3, ethereum_hash_3);

    backend.insert_logs(vec![
        log_1_abcd_0_0_alice.row(),
        log_1_dcba_1_0_alice.row(),
        log_1_badc_2_0_alice.row(),
        log_2_abcd_0_0_bob.row(),
        log_2_dcba_1_0_bob.row(),
        log_2_badc_2_0_bob.row(),
        log_3_abcd_0_0_bob.row(),
        log_3_dcba_1_0_bob.row(),
        log_3_badc_2_0_bob.row(),
    ]);

    TestData {
        backend,
        alice,
        bob,
        topics_a,
        topics_b,
        topics_c,
        topics_d,
        substrate_hash_1,
        substrate_hash_2,
        substrate_hash_3,
        log_1_abcd_0_0_alice,
        log_1_dcba_1_0_alice,
        log_1_badc_2_0_alice,
        log_2_abcd_0_0_bob,
        log_2_dcba_1_0_bob,
        log_2_badc_2_0_bob,
        log_3_abcd_0_0_bob,
        log_3_dcba_1_0_bob,
        log_3_badc_2_0_bob,
    }
}

fn run(
    backend: &IndexStore,
    from_block: u64,
    to_block: u64,
    addresses: Vec<H160>,
    topics: Vec<Vec<Option<H256>>>,
) -> Result<Vec<FilteredLog>, FilterError> {
    backend.filter_logs(from_block, to_block, &addresses, &topics)
}

#[test]
fn genesis_works() {
    let t = prepare();
    let result = run(&t.backend, 0, 0, vec![], vec![]).expect("must succeed");
    assert_eq!(result, vec![]);
}

#[test]
fn unsanitized_input_works() {
    let t = prepare();
    let result = run(&t.backend, 0, 0, vec![], vec![vec![None], vec![None, None, None]]).expect("must succeed");
    assert_eq!(result, vec![]);
}

#[test]
fn invalid_topic_input_size_fails() {
    let t = prepare();
    let topics_a = t.topics_a;
    let result = run(
        &t.backend,
        0,
        0,
        vec![],
        vec![
            vec![Some(topics_a), None, None, None, None],
            vec![Some(topics_a), None, None, None],
        ],
    );
    assert_eq!(result, Err(FilterError::InvalidTopicInput));
    assert_eq!(FilterError::InvalidTopicInput.message(), "Invalid topic input. Maximum length is 4.");
}

#[test]
fn test_malformed_topic_cleans_invalid_options() {
    let t = prepare();
    let result = run(
        &t.backend,
        0,
        1,
        vec![],
        vec![
            vec![Some(t.topics_a), None, Some(t.topics_d)],
            vec![None],
            vec![Some(t.topics_b), Some(t.topics_a), None],
            vec![None, None, None, None],
        ],
    )
    .expect("must succeed");
    assert_eq!(result, vec![t.log_1_badc_2_0_alice.filtered()]);
}

#[test]
fn block_range_works() {
    let t = prepare();
    let result = run(&t.backend, 0, 2, vec![], vec![]).expect("must succeed");
    assert_eq!(
        result,
        vec![
            t.log_1_abcd_0_0_alice.filtered(),
            t.log_1_dcba_1_0_alice.filtered(),
            t.log_1_badc_2_0_alice.filtered(),
            t.log_2_abcd_0_0_bob.filtered(),
            t.log_2_dcba_1_0_bob.filtered(),
            t.log_2_badc_2_0_bob.filtered(),
        ]
    );
}

#[test]
fn address_filter_works() {
    let t = prepare();
    let result = run(&t.backend, 0, 3, vec![t.alice], vec![]).expect("must succeed");
    assert_eq!(
        result,
        vec![
            t.log_1_abcd_0_0_alice.filtered(),
            t.log_1_dcba_1_0_alice.filtered(),
            t.log_1_badc_2_0_alice.filtered(),
        ]
    );
}

#[test]
fn topic_filter_works() {
    let t = prepare();
    let result = run(&t.backend, 0, 3, vec![], vec![vec![Some(t.topics_d)]]).expect("must succeed");
    assert_eq!(
        result,
        vec![
            t.log_1_dcba_1_0_alice.filtered(),
            t.log_2_dcba_1_0_bob.filtered(),
            t.log_3_dcba_1_0_bob.filtered(),
        ]
    );
}

#[test]
fn test_filters_address_and_topic() {
    let t = prepare();
    let result = run(&t.backend, 0, 3, vec![t.bob], vec![vec![Some(t.topics_b)]]).expect("must succeed");
    assert_eq!(result, vec![t.log_2_badc_2_0_bob.filtered(), t.log_3_badc_2_0_bob.filtered()]);
}

#[test]
fn test_filters_multi_address_and_topic() {
    let t = prepare();
    let result = run(&t.backend, 0, 3, vec![t.alice, t.bob], vec![vec![Some(t.topics_b)]]).expect("must succeed");
    assert_eq!(
        result,
        vec![
            t.log_1_badc_2_0_alice.filtered(),
            t.log_2_badc_2_0_bob.filtered(),
            t.log_3_badc_2_0_bob.filtered(),
        ]
    );
}

#[test]
fn test_filters_multi_address_and_multi_topic() {
    let t = prepare();
    let result = run(
        &t.backend,
        0,
        3,
        vec![t.alice, t.bob],
        vec![vec![Some(t.topics_a), Some(t.topics_b)]],
    )
    .expect("must succeed");
    assert_eq!(
        result,
        vec![
            t.log_1_abcd_0_0_alice.filtered(),
            t.log_2_abcd_0_0_bob.filtered(),
            t.log_3_abcd_0_0_bob.filtered(),
        ]
    );
}

#[test]
fn filter_with_topic_wildcards_works() {
    let t = prepare();
    let result = run(
        &t.backend,
        0,
        3,
        vec![t.alice, t.bob],
        vec![vec![Some(t.topics_d), None, Some(t.topics_b)]],
    )
    .expect("must succeed");
    assert_eq!(
        result,
        vec![
            t.log_1_dcba_1_0_alice.filtered(),
            t.log_2_dcba_1_0_bob.filtered(),
            t.log_3_dcba_1_0_bob.filtered(),
        ]
    );
}

#[test]
fn trailing_wildcard_is_useless_but_works() {
    let t = prepare();
    let result = run(&t.backend, 0, 1, vec![t.alice], vec![vec![None, None, Some(t.topics_b), None]])
        .expect("must succeed");
    assert_eq!(result, vec![t.log_1_dcba_1_0_alice.filtered()]);
}

#[test]
fn filter_with_multi_topic_options_works() {
    let t = prepare();
    let result = run(
        &t.backend,
        0,
        3,
        vec![],
        vec![vec![Some(t.topics_a)], vec![Some(t.topics_d)], vec![Some(t.topics_d)]],
    )
    .expect("must succeed");
    assert_eq!(
        result,
        vec![
            t.log_1_abcd_0_0_alice.filtered(),
            t.log_1_dcba_1_0_alice.filtered(),
            t.log_2_abcd_0_0_bob.filtered(),
            t.log_2_dcba_1_0_bob.filtered(),
            t.log_3_abcd_0_0_bob.filtered(),
            t.log_3_dcba_1_0_bob.filtered(),
        ]
    );
}

#[test]
fn filter_with_multi_topic_options_and_wildcards_works() {
    let t = prepare();
    let result = run(
        &t.backend,
        0,
        3,
        vec![t.bob],
        vec![
            vec![None, None, Some(t.topics_b), Some(t.topics_a)],
            vec![None, None, Some(t.topics_b), Some(t.topics_c)],
            vec![None, None, Some(t.topics_d), Some(t.topics_a)],
            vec![None, None, Some(t.topics_d), Some(t.topics_c)],
        ],
    )
    .expect("must succeed");
    assert_eq!(
        result,
        vec![
            t.log_2_dcba_1_0_bob.filtered(),
            t.log_2_badc_2_0_bob.filtered(),
            t.log_3_dcba_1_0_bob.filtered(),
            t.log_3_badc_2_0_bob.filtered(),
        ]
    );
}

fn canon_flags(backend: &IndexStore) -> Vec<(H256, u32)> {
    backend.blocks().iter().map(|b| (b.substrate_block_hash, b.is_canon as u32)).collect()
}

#[test]
fn test_canonicalize_sets_canon_flag_for_redacted_and_enacted_blocks_correctly() {
    let mut t = prepare();
    // set block #1 to non canon
    t.backend.canonicalize(&vec![t.substrate_hash_1], &vec![]);
    assert_eq!(
        canon_flags(&t.backend),
        vec![(t.substrate_hash_1, 0), (t.substrate_hash_2, 1), (t.substrate_hash_3, 1)]
    );

    t.backend.canonicalize(&vec![t.substrate_hash_2], &vec![t.substrate_hash_1]);
    assert_eq!(
        canon_flags(&t.backend),
        vec![(t.substrate_hash_1, 1), (t.substrate_hash_2, 0), (t.substrate_hash_3, 1)]
    );
}

#[test]
fn non_canonical_blocks_are_not_returned() {
    let mut t = prepare();
    t.backend.canonicalize(&vec![t.substrate_hash_2], &vec![]);
    let result = run(&t.backend, 0, 3, vec![t.bob], vec![]).expect("must succeed");
    assert_eq!(
        result,
        vec![
            t.log_3_abcd_0_0_bob.filtered(),
            t.log_3_dcba_1_0_bob.filtered(),
            t.log_3_badc_2_0_bob.filtered(),
        ]
    );
}

#[test]
fn results_are_ordered_whatever_the_insertion_order() {
    let mut backend = IndexStore::new();
    let h1 = H256::repeat_byte(0x11);
    let h2 = H256::repeat_byte(0x12);
    backend.insert_block_metadata(&vec![block(9, H256::repeat_byte(0x21), h1), block(4, H256::repeat_byte(0x22), h2)], &vec![]);
    let zero = H256::zero();
    let mk = |h: H256, tx: i32, li: i32| Log {
        address: H160::repeat_byte(0x01).to_vec(),
        topic_1: zero.to_vec(),
        topic_2: zero.to_vec(),
        topic_3: zero.to_vec(),
        topic_4: zero.to_vec(),
        log_index: li,
        transaction_index: tx,
        substrate_block_hash: h.to_vec(),
    };
    backend.insert_logs(vec![mk(h1, 1, 0), mk(h1, 0, 1), mk(h2, 2, 0), mk(h1, 0, 0)]);
    let result = backend.filter_logs(0, 100, &vec![], &vec![]).expect("must succeed");
    let order: Vec<(u32, u32, u32)> = result.iter().map(|f| (f.block_number, f.transaction_index, f.log_index)).collect();
    assert_eq!(order, vec![(4, 2, 0), (9, 0, 0), (9, 0, 1), (9, 1, 0)]);
}

#[test]
fn results_are_capped_one_past_the_limit() {
    let mut backend = IndexStore::new();
    let h = H256::repeat_byte(0x31);
    backend.insert_block_metadata(&vec![block(1, H256::repeat_byte(0x32), h)], &vec![]);
    let zero = H256::zero();
    let mut logs = vec![];
    for i in 0..10005 {
        logs.push(Log {
            address: H160::repeat_byte(0x01).to_vec(),
            topic_1: zero.to_vec(),
            topic_2: zero.to_vec(),
            topic_3: zero.to_vec(),
            topic_4: zero.to_vec(),
            log_index: 10004 - i,
            transaction_index: 0,
            substrate_block_hash: h.to_vec(),
        });
    }
    backend.insert_logs(logs);
    let result = backend.filter_logs(0, 1, &vec![], &vec![]).expect("must succeed");
    assert_eq!(result.len(), 10001);
    assert_eq!(result[0].log_index, 0);
    assert_eq!(result[10000].log_index, 10000);
}

#[test]
fn ties_keep_table_order_and_first_joining_block() {
    let mut backend = IndexStore::new();
    let h1 = H256::repeat_byte(0x51);
    let h2 = H256::repeat_byte(0x52);
    // two canonical blocks at one height, and a second row for h1 under another Ethereum hash
    backend.insert_block_metadata(
        &vec![block(7, H256::repeat_byte(0x61), h2), block(7, H256::repeat_byte(0x62), h1), block(7, H256::repeat_byte(0x63), h1)],
        &vec![],
    );
    let zero = H256::zero();
    let mk = |h: H256| Log {
        address: H160::repeat_byte(0x01).to_vec(),
        topic_1: zero.to_vec(),
        topic_2: zero.to_vec(),
        topic_3: zero.to_vec(),
        topic_4: zero.to_vec(),
        log_index: 0,
        transaction_index: 0,
        substrate_block_hash: h.to_vec(),
    };
    backend.insert_logs(vec![mk(h1), mk(h2)]);
    let result = backend.filter_logs(0, 10, &vec![], &vec![]).expect("must succeed");
    assert_eq!(result.len(), 2);
    assert_eq!(result[0].substrate_block_hash, h1);
    assert_eq!(result[0].ethereum_block_hash, H256::repeat_byte(0x62));
    assert_eq!(result[1].substrate_block_hash, h2);
}

#[test]
fn budget_error_has_its_own_message() {
    assert_eq!(
        FilterError::QueryBudgetExceeded.message(),
        "Query budget exceeded: the filter took too many steps"
    );
    assert_ne!(FilterError::QueryBudgetExceeded.message(), FilterError::QueryFailed.message());
}
