//! The fixed statements of the index: its schema, its indexes, and the writes
//! of the ingestion passes. Every value they carry is bound, never spliced in.
use vstd::prelude::*;
use vstd::string::StringExecFns;
use crate::hash::H256;
use crate::query::{BoundValue, Query, SqlArg, args_view};
use crate::schema::schema_tag;
use crate::store::{BlockMetadata, Log};

verus! {

/// Creates the four tables if they are absent.
pub const CREATE_TABLES: &'static str = "BEGIN;
CREATE TABLE IF NOT EXISTS logs (
\tid INTEGER PRIMARY KEY,
\taddress BLOB NOT NULL,
\ttopic_1 BLOB NOT NULL,
\ttopic_2 BLOB NOT NULL,
\ttopic_3 BLOB NOT NULL,
\ttopic_4 BLOB NOT NULL,
\tlog_index INTEGER NOT NULL,
\ttransaction_index INTEGER NOT NULL,
\tsubstrate_block_hash BLOB NOT NULL,
\tUNIQUE (log_index, transaction_index, substrate_block_hash)
);
CREATE TABLE IF NOT EXISTS sync_status (
\tid INTEGER PRIMARY KEY,
\tsubstrate_block_hash BLOB NOT NULL,
\tstatus INTEGER DEFAULT 0 NOT NULL,
\tUNIQUE (substrate_block_hash)
);
CREATE TABLE IF NOT EXISTS blocks (
\tid INTEGER PRIMARY KEY,
\tblock_number INTEGER NOT NULL,
\tethereum_block_hash BLOB NOT NULL,
\tsubstrate_block_hash BLOB NOT NULL,
\tethereum_storage_schema BLOB NOT NULL,
\tis_canon INTEGER NOT NULL,
\tUNIQUE (ethereum_block_hash, substrate_block_hash)
);
CREATE TABLE IF NOT EXISTS transactions (
\tid INTEGER PRIMARY KEY,
\tethereum_transaction_hash BLOB NOT NULL,
\tsubstrate_block_hash BLOB NOT NULL,
\tethereum_block_hash BLOB NOT NULL,
\tethereum_transaction_index INTEGER NOT NULL,
\tUNIQUE (ethereum_transaction_hash, substrate_block_hash)
);
COMMIT;";

/// Creates the secondary indexes if they are absent.
pub const CREATE_INDEXES: &'static str = "BEGIN;
CREATE INDEX IF NOT EXISTS logs_main_idx ON logs (address, topic_1, topic_2, topic_3, topic_4);
CREATE INDEX IF NOT EXISTS logs_substrate_index ON logs (substrate_block_hash);
CREATE INDEX IF NOT EXISTS blocks_number_index ON blocks (block_number);
CREATE INDEX IF NOT EXISTS blocks_substrate_index ON blocks (substrate_block_hash);
CREATE INDEX IF NOT EXISTS eth_block_hash_idx ON blocks (ethereum_block_hash);
CREATE INDEX IF NOT EXISTS eth_tx_hash_idx ON transactions (ethereum_transaction_hash);
CREATE INDEX IF NOT EXISTS eth_tx_hash_2_idx ON transactions (ethereum_block_hash, ethereum_transaction_index);
COMMIT;";

/// Writes a block row: Ethereum hash, native hash, number, schema, canonical flag.
pub const INSERT_BLOCK: &'static str = "INSERT OR IGNORE INTO blocks(ethereum_block_hash, substrate_block_hash, block_number, ethereum_storage_schema, is_canon) VALUES (?, ?, ?, ?, ?)";

/// Writes a transaction row: transaction hash, native block hash, Ethereum block hash, index.
pub const INSERT_TRANSACTION: &'static str = "INSERT OR IGNORE INTO transactions(ethereum_transaction_hash, substrate_block_hash, ethereum_block_hash, ethereum_transaction_index) VALUES (?, ?, ?, ?)";

/// Queues a block for log ingestion.
pub const INSERT_SYNC_STATUS: &'static str = "INSERT OR IGNORE INTO sync_status(substrate_block_hash) VALUES (?)";

/// Claims up to the bound number of pending blocks and returns their hashes.
pub const CLAIM_PENDING: &'static str = "UPDATE sync_status SET status = 1 WHERE substrate_block_hash IN (SELECT substrate_block_hash FROM sync_status WHERE status = 0 LIMIT ?) RETURNING substrate_block_hash";

/// Writes a log row: address, four topics, log index, transaction index, native block hash.
pub const INSERT_LOG: &'static str = "INSERT OR IGNORE INTO logs(address, topic_1, topic_2, topic_3, topic_4, log_index, transaction_index, substrate_block_hash) VALUES (?, ?, ?, ?, ?, ?, ?, ?)";

/// The native hashes of the blocks with a given Ethereum hash.
pub const SELECT_BLOCK_HASH: &'static str = "SELECT substrate_block_hash FROM blocks WHERE ethereum_block_hash = ?";

/// Where a transaction with a given hash was included.
pub const SELECT_TRANSACTION_METADATA: &'static str = "SELECT substrate_block_hash, ethereum_block_hash, ethereum_transaction_index FROM transactions WHERE ethereum_transaction_hash = ?";

/// The write of a block's row: its hashes, number, encoded schema and
/// canonical flag.
pub fn block_insert(m: &BlockMetadata) -> (r: Query)
    ensures
        r.sql@ == INSERT_BLOCK@,
        args_view(r.args@) == seq![
            BoundValue::Blob(m.post_hashes.block_hash@),
            BoundValue::Blob(m.substrate_block_hash@),
            BoundValue::Integer(m.block_number as i64),
            BoundValue::Blob(seq![schema_tag(m.schema)]),
            BoundValue::Integer(if m.is_canon { 1 } else { 0 }),
        ],
{
    let mut args: Vec<SqlArg> = Vec::new();
    args.push(SqlArg::Blob(m.post_hashes.block_hash.to_vec()));
    args.push(SqlArg::Blob(m.substrate_block_hash.to_vec()));
    args.push(SqlArg::Integer(m.block_number as i64));
    args.push(SqlArg::Blob(m.schema.encode()));
    args.push(SqlArg::Integer(if m.is_canon { 1 } else { 0 }));
    let r = Query { sql: String::from_str(INSERT_BLOCK), args };
    assert(args_view(r.args@) =~= seq![
        BoundValue::Blob(m.post_hashes.block_hash@),
        BoundValue::Blob(m.substrate_block_hash@),
        BoundValue::Integer(m.block_number as i64),
        BoundValue::Blob(seq![schema_tag(m.schema)]),
        BoundValue::Integer(if m.is_canon { 1 } else { 0 }),
    ]);
    r
}

/// The write of transaction `i` of a block: its hash, the block's hashes and
/// its position in the block.
pub fn transaction_insert(m: &BlockMetadata, i: usize) -> (r: Query)
    requires
        i < m.post_hashes.transaction_hashes@.len(),
    ensures
        r.sql@ == INSERT_TRANSACTION@,
        args_view(r.args@) == seq![
            BoundValue::Blob(m.post_hashes.transaction_hashes@[i as int]@),
            BoundValue::Blob(m.substrate_block_hash@),
            BoundValue::Blob(m.post_hashes.block_hash@),
            BoundValue::Integer(i as u32 as i64),
        ],
{
    let mut args: Vec<SqlArg> = Vec::new();
    args.push(SqlArg::Blob(m.post_hashes.transaction_hashes[i].to_vec()));
    args.push(SqlArg::Blob(m.substrate_block_hash.to_vec()));
    args.push(SqlArg::Blob(m.post_hashes.block_hash.to_vec()));
    #[verifier::truncate]
    let index = i as u32;
    args.push(SqlArg::Integer(index as i64));
    let r = Query { sql: String::from_str(INSERT_TRANSACTION), args };
    assert(args_view(r.args@) =~= seq![
        BoundValue::Blob(m.post_hashes.transaction_hashes@[i as int]@),
        BoundValue::Blob(m.substrate_block_hash@),
        BoundValue::Blob(m.post_hashes.block_hash@),
        BoundValue::Integer(i as u32 as i64),
    ]);
    r
}

/// The write that queues a block for log ingestion.
pub fn sync_insert(hash: &H256) -> (r: Query)
    ensures
        r.sql@ == INSERT_SYNC_STATUS@,
        args_view(r.args@) == seq![BoundValue::Blob(hash@)],
{
    let mut args: Vec<SqlArg> = Vec::new();
    args.push(SqlArg::Blob(hash.to_vec()));
    let r = Query { sql: String::from_str(INSERT_SYNC_STATUS), args };
    assert(args_view(r.args@) =~= seq![BoundValue::Blob(hash@)]);
    r
}

/// The claim of at most `max` pending blocks; a bound beyond the engine's
/// integers claims without limit.
pub fn claim_pending(max: usize) -> (r: Query)
    ensures
        r.sql@ == CLAIM_PENDING@,
        args_view(r.args@) == seq![BoundValue::Integer(if max as int > i64::MAX as int { i64::MAX } else { max as i64 })],
{
    let limit: i64 = if max as u64 > i64::MAX as u64 { i64::MAX } else { max as i64 };
    let mut args: Vec<SqlArg> = Vec::new();
    args.push(SqlArg::Integer(limit));
    let r = Query { sql: String::from_str(CLAIM_PENDING), args };
    assert(args_view(r.args@) =~= seq![BoundValue::Integer(limit)]);
    r
}

/// Copies a byte vector.
fn copy_bytes(v: &Vec<u8>) -> (r: Vec<u8>)
    ensures
        r@ == v@,
{
    crate::hash::bytes_to_vec(v.as_slice())
}

/// The write of a log row: address, the four topic slots, log index,
/// transaction index and block hash.
pub fn log_insert(l: &Log) -> (r: Query)
    ensures
        r.sql@ == INSERT_LOG@,
        args_view(r.args@) == seq![
            BoundValue::Blob(l.address@),
            BoundValue::Blob(l.topic_1@),
            BoundValue::Blob(l.topic_2@),
            BoundValue::Blob(l.topic_3@),
            BoundValue::Blob(l.topic_4@),
            BoundValue::Integer(l.log_index as i64),
            BoundValue::Integer(l.transaction_index as i64),
            BoundValue::Blob(l.substrate_block_hash@),
        ],
{
    let mut args: Vec<SqlArg> = Vec::new();
    args.push(SqlArg::Blob(copy_bytes(&l.address)));
    args.push(SqlArg::Blob(copy_bytes(&l.topic_1)));
    args.push(SqlArg::Blob(copy_bytes(&l.topic_2)));
    args.push(SqlArg::Blob(copy_bytes(&l.topic_3)));
    args.push(SqlArg::Blob(copy_bytes(&l.topic_4)));
    args.push(SqlArg::Integer(l.log_index as i64));
    args.push(SqlArg::Integer(l.transaction_index as i64));
    args.push(SqlArg::Blob(copy_bytes(&l.substrate_block_hash)));
    let r = Query { sql: String::from_str(INSERT_LOG), args };
    assert(args_view(r.args@) =~= seq![
        BoundValue::Blob(l.address@),
        BoundValue::Blob(l.topic_1@),
        BoundValue::Blob(l.topic_2@),
        BoundValue::Blob(l.topic_3@),
        BoundValue::Blob(l.topic_4@),
        BoundValue::Integer(l.log_index as i64),
        BoundValue::Integer(l.transaction_index as i64),
        BoundValue::Blob(l.substrate_block_hash@),
    ]);
    r
}

} // verus!
