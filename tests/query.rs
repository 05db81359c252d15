use log_indexer::hash::{H160, H256};
use log_indexer::query::{build_query, canon_update_query, unique_topics, FilterError, SqlArg};

fn blob(a: &SqlArg) -> Vec<u8> {
    match a {
        SqlArg::Blob(b) => b.clone(),
        SqlArg::Integer(_) => panic!("expected a blob"),
    }
}

#[test]
fn test_query_should_be_generated_correctly() {
    let from_block: u64 = 100;
    let to_block: u64 = 500;
    let addresses: Vec<H160> = vec![
        H160::repeat_byte(0x01),
        H160::repeat_byte(0x02),
        H160::repeat_byte(0x03),
    ];
    let topics = [
        vec![H256::repeat_byte(0x01), H256::repeat_byte(0x02), H256::repeat_byte(0x03)],
        vec![H256::repeat_byte(0x04), H256::repeat_byte(0x05)],
        vec![],
        vec![H256::repeat_byte(0x06)],
    ];

    let expected_query_sql = "
SELECT
\tl.substrate_block_hash,
\tb.ethereum_block_hash,
\tb.block_number,
\tb.ethereum_storage_schema,
\tl.transaction_index,
\tl.log_index
FROM logs AS l
INNER JOIN blocks AS b
ON (b.block_number BETWEEN ? AND ?) AND b.substrate_block_hash = l.substrate_block_hash AND b.is_canon = 1
WHERE 1 AND l.address IN (?, ?, ?) AND l.topic_1 IN (?, ?, ?) AND l.topic_2 IN (?, ?) AND l.topic_4 = ?
GROUP BY l.substrate_block_hash, l.transaction_index, l.log_index
ORDER BY b.block_number ASC, l.transaction_index ASC, l.log_index ASC
LIMIT 10001";

    let actual = build_query(from_block, to_block, &addresses, &topics);
    assert_eq!(expected_query_sql, actual.sql);
}

#[test]
fn query_binds_range_addresses_then_topics_in_order() {
    let addresses = vec![H160::repeat_byte(0x01), H160::repeat_byte(0x02), H160::repeat_byte(0x03)];
    let topics = [
        vec![H256::repeat_byte(0x01), H256::repeat_byte(0x02), H256::repeat_byte(0x03)],
        vec![H256::repeat_byte(0x04), H256::repeat_byte(0x05)],
        vec![],
        vec![H256::repeat_byte(0x06)],
    ];
    let q = build_query(100, 500, &addresses, &topics);
    assert_eq!(q.args.len(), 2 + 3 + 3 + 2 + 1);
    assert!(matches!(q.args[0], SqlArg::Integer(100)));
    assert!(matches!(q.args[1], SqlArg::Integer(500)));
    assert_eq!(blob(&q.args[2]), vec![0x01u8; 20]);
    assert_eq!(blob(&q.args[4]), vec![0x03u8; 20]);
    assert_eq!(blob(&q.args[5]), vec![0x01u8; 32]);
    assert_eq!(blob(&q.args[9]), vec![0x05u8; 32]);
    assert_eq!(blob(&q.args[10]), vec![0x06u8; 32]);
}

#[test]
fn query_is_deterministic() {
    let addresses = vec![H160::repeat_byte(0x07)];
    let topics = [vec![H256::repeat_byte(0x01)], vec![], vec![H256::repeat_byte(0x02), H256::repeat_byte(0x03)], vec![]];
    let a = build_query(1, 2, &addresses, &topics);
    let b = build_query(1, 2, &addresses, &topics);
    assert_eq!(a.sql, b.sql);
    assert_eq!(a.args.len(), b.args.len());
}

#[test]
fn empty_filter_has_no_address_or_topic_condition() {
    let q = build_query(0, 0, &vec![], &[vec![], vec![], vec![], vec![]]);
    assert!(q.sql.contains("WHERE 1\nGROUP BY"));
    assert_eq!(q.args.len(), 2);
}

#[test]
fn topic_rows_collapse_to_positional_sets() {
    let a = H256::repeat_byte(0x01);
    let b = H256::repeat_byte(0x02);
    let c = H256::repeat_byte(0x03);
    let d = H256::repeat_byte(0x04);
    let sets = unique_topics(&vec![
        vec![None, None, Some(b), Some(a)],
        vec![None, None, Some(b), Some(c)],
        vec![None, None, Some(d), Some(a)],
        vec![None, None, Some(d), Some(c)],
    ])
    .expect("valid");
    assert!(sets[0].is_empty());
    assert!(sets[1].is_empty());
    assert_eq!(sets[2], vec![b, d]);
    assert_eq!(sets[3], vec![a, c]);
}

#[test]
fn topic_row_of_five_is_refused() {
    let a = H256::repeat_byte(0x01);
    let r = unique_topics(&vec![vec![Some(a), None, None, None, None]]);
    assert!(matches!(r, Err(FilterError::InvalidTopicInput)));
    let ok = unique_topics(&vec![vec![Some(a), None, None, None]]);
    assert!(ok.is_ok());
}

#[test]
fn canon_update_binds_each_hash() {
    let q = canon_update_query(false, &vec![H256::repeat_byte(0x05), H256::repeat_byte(0x06)]);
    assert_eq!(q.sql, "UPDATE blocks SET is_canon = 0 WHERE substrate_block_hash IN (?, ?)");
    assert_eq!(q.args.len(), 2);
    assert_eq!(blob(&q.args[1]), vec![0x06u8; 32]);
    let q = canon_update_query(true, &vec![]);
    assert_eq!(q.sql, "UPDATE blocks SET is_canon = 1 WHERE substrate_block_hash IN ()");
}
