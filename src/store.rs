//! The reference model of the index: its four relations, the writes that fill
//! and reorganise them, and the reads that answer filters. The laws of the
//! index are proved over this model; the SQL store runs the same writes as
//! the statements of `statements` and `query`.
use vstd::prelude::*;
use crate::hash::{H256, bytes_equal};
use crate::query::{FilterError, MAX_RESULTS, addresses_view, contains_hash, hashes_view, position_values, topics_valid, unique_topics};
use crate::hash::H160;
use crate::rows::{has_key, keys_unique, insert_or_ignore, lemma_insert_one, lemma_insert_or_ignore, lemma_insert_or_ignore_concat, lemma_insert_or_ignore_idempotent};
use crate::schema::EthereumStorageSchema;

verus! {

/// The Ethereum hashes that a block's consensus digest carries.
pub struct PostHashes {
    pub block_hash: H256,
    pub transaction_hashes: Vec<H256>,
}

/// What the index records of a block when it first sees it.
pub struct BlockMetadata {
    pub substrate_block_hash: H256,
    pub block_number: u32,
    pub post_hashes: PostHashes,
    pub schema: EthereumStorageSchema,
    pub is_canon: bool,
}

/// Represents a log item.
#[derive(Debug)]
pub struct Log {
    pub address: Vec<u8>,
    pub topic_1: Vec<u8>,
    pub topic_2: Vec<u8>,
    pub topic_3: Vec<u8>,
    pub topic_4: Vec<u8>,
    pub log_index: i32,
    pub transaction_index: i32,
    pub substrate_block_hash: Vec<u8>,
}

/// A row of `blocks`; unique on the pair of hashes.
#[derive(Clone, Copy, Debug)]
pub struct BlockRow {
    pub block_number: u32,
    pub ethereum_block_hash: H256,
    pub substrate_block_hash: H256,
    pub ethereum_storage_schema: EthereumStorageSchema,
    pub is_canon: bool,
}

/// A row of `transactions`; unique on the transaction hash and the block hash.
#[derive(Clone, Copy, Debug)]
pub struct TransactionRow {
    pub ethereum_transaction_hash: H256,
    pub substrate_block_hash: H256,
    pub ethereum_block_hash: H256,
    pub ethereum_transaction_index: u32,
}

/// A row of the sync queue: a block whose logs are pending, or claimed by a pass.
#[derive(Clone, Copy, Debug)]
pub struct SyncRow {
    pub substrate_block_hash: H256,
    pub claimed: bool,
}

pub open spec fn block_key() -> spec_fn(BlockRow) -> (Seq<u8>, Seq<u8>) {
    |r: BlockRow| (r.ethereum_block_hash@, r.substrate_block_hash@)
}

pub open spec fn transaction_key() -> spec_fn(TransactionRow) -> (Seq<u8>, Seq<u8>) {
    |r: TransactionRow| (r.ethereum_transaction_hash@, r.substrate_block_hash@)
}

pub open spec fn log_key() -> spec_fn(Log) -> (i32, i32, Seq<u8>) {
    |r: Log| (r.log_index, r.transaction_index, r.substrate_block_hash@)
}

pub open spec fn sync_key() -> spec_fn(SyncRow) -> Seq<u8> {
    |r: SyncRow| r.substrate_block_hash@
}

/// The contents of the index.
pub struct IndexState {
    pub blocks: Seq<BlockRow>,
    pub transactions: Seq<TransactionRow>,
    pub logs: Seq<Log>,
    pub sync_status: Seq<SyncRow>,
}

/// Every table holds at most one row per unique key.
pub open spec fn state_wf(s: IndexState) -> bool {
    &&& keys_unique(s.blocks, block_key())
    &&& keys_unique(s.transactions, transaction_key())
    &&& keys_unique(s.logs, log_key())
    &&& keys_unique(s.sync_status, sync_key())
}

/// The block row of a block's metadata.
pub open spec fn block_row(m: BlockMetadata) -> BlockRow {
    BlockRow {
        block_number: m.block_number,
        ethereum_block_hash: m.post_hashes.block_hash,
        substrate_block_hash: m.substrate_block_hash,
        ethereum_storage_schema: m.schema,
        is_canon: m.is_canon,
    }
}

pub open spec fn block_rows(ms: Seq<BlockMetadata>) -> Seq<BlockRow> {
    ms.map_values(|m: BlockMetadata| block_row(m))
}

/// The transaction rows of one block: one per post-hash, indexed by position.
pub open spec fn block_transaction_rows(m: BlockMetadata) -> Seq<TransactionRow> {
    Seq::new(
        m.post_hashes.transaction_hashes@.len(),
        |i: int| TransactionRow {
            ethereum_transaction_hash: m.post_hashes.transaction_hashes@[i],
            substrate_block_hash: m.substrate_block_hash,
            ethereum_block_hash: m.post_hashes.block_hash,
            ethereum_transaction_index: i as u32,
        },
    )
}

pub open spec fn transaction_rows(ms: Seq<BlockMetadata>) -> Seq<TransactionRow>
    decreases ms.len(),
{
    if ms.len() == 0 {
        Seq::empty()
    } else {
        transaction_rows(ms.drop_last()) + block_transaction_rows(ms.last())
    }
}

/// A pending queue row for each hash.
pub open spec fn sync_rows(hashes: Seq<H256>) -> Seq<SyncRow> {
    hashes.map_values(|h: H256| SyncRow { substrate_block_hash: h, claimed: false })
}

/// The index after the metadata of a batch of blocks is written, and each
/// hash of the batch queued, every insert ignored where its key is taken.
pub open spec fn metadata_applied(s: IndexState, ms: Seq<BlockMetadata>, hashes: Seq<H256>) -> IndexState {
    IndexState {
        blocks: insert_or_ignore(s.blocks, block_rows(ms), block_key()),
        transactions: insert_or_ignore(s.transactions, transaction_rows(ms), transaction_key()),
        logs: s.logs,
        sync_status: insert_or_ignore(s.sync_status, sync_rows(hashes), sync_key()),
    }
}

/// A block row after a reorg: canonical if enacted, else not canonical if
/// retracted, else as it was.
pub open spec fn canon_after(row: BlockRow, retracted: Seq<H256>, enacted: Seq<H256>) -> BlockRow {
    BlockRow {
        is_canon: if hashes_view(enacted).contains(row.substrate_block_hash@) {
            true
        } else if hashes_view(retracted).contains(row.substrate_block_hash@) {
            false
        } else {
            row.is_canon
        },
        ..row
    }
}

pub open spec fn canonicalized(s: IndexState, retracted: Seq<H256>, enacted: Seq<H256>) -> IndexState {
    IndexState {
        blocks: Seq::new(s.blocks.len(), |i: int| canon_after(s.blocks[i], retracted, enacted)),
        ..s
    }
}

/// The number of pending rows among `rows`.
pub open spec fn pending_count(rows: Seq<SyncRow>) -> nat
    decreases rows.len(),
{
    if rows.len() == 0 {
        0
    } else {
        pending_count(rows.drop_last()) + if rows.last().claimed { 0nat } else { 1nat }
    }
}

/// Whether a claim of at most `max` rows takes row `i`: the first `max`
/// pending rows, in table order, are taken.
pub open spec fn claimed_by(rows: Seq<SyncRow>, i: int, max: nat) -> bool {
    !rows[i].claimed && pending_count(rows.subrange(0, i)) < max
}

/// The hashes that a claim of at most `max` rows returns, from the first `n` rows.
pub open spec fn claimed_hashes(rows: Seq<SyncRow>, max: nat, n: int) -> Seq<Seq<u8>>
    decreases n,
{
    if n <= 0 {
        Seq::empty()
    } else if claimed_by(rows, n - 1, max) {
        claimed_hashes(rows, max, n - 1).push(rows[n - 1].substrate_block_hash@)
    } else {
        claimed_hashes(rows, max, n - 1)
    }
}

pub open spec fn claim_applied(s: IndexState, max: nat) -> IndexState {
    IndexState {
        sync_status: Seq::new(
            s.sync_status.len(),
            |i: int| SyncRow { claimed: s.sync_status[i].claimed || claimed_by(s.sync_status, i, max), ..s.sync_status[i] },
        ),
        ..s
    }
}

pub open spec fn logs_applied(s: IndexState, logs: Seq<Log>) -> IndexState {
    IndexState { logs: insert_or_ignore(s.logs, logs, log_key()), ..s }
}

/// A log that a filter selected, with what the caller needs to find it.
#[derive(Clone, Copy, Debug)]
pub struct FilteredLog {
    pub substrate_block_hash: H256,
    pub ethereum_block_hash: H256,
    pub block_number: u32,
    pub ethereum_storage_schema: EthereumStorageSchema,
    pub transaction_index: u32,
    pub log_index: u32,
}

impl PartialEq for FilteredLog {
    fn eq(&self, other: &FilteredLog) -> (r: bool) {
        self.substrate_block_hash.equals(&other.substrate_block_hash)
            && self.ethereum_block_hash.equals(&other.ethereum_block_hash)
            && self.block_number == other.block_number
            && self.ethereum_storage_schema == other.ethereum_storage_schema
            && self.transaction_index == other.transaction_index
            && self.log_index == other.log_index
    }
}

impl vstd::std_specs::cmp::PartialEqSpecImpl for FilteredLog {
    open spec fn obeys_eq_spec() -> bool {
        true
    }

    open spec fn eq_spec(&self, other: &FilteredLog) -> bool {
        &&& self.substrate_block_hash@ == other.substrate_block_hash@
        &&& self.ethereum_block_hash@ == other.ethereum_block_hash@
        &&& self.block_number == other.block_number
        &&& self.ethereum_storage_schema == other.ethereum_storage_schema
        &&& self.transaction_index == other.transaction_index
        &&& self.log_index == other.log_index
    }
}

/// Where a transaction was included.
#[derive(Clone, Copy, Debug)]
pub struct TransactionMetadata {
    pub block_hash: H256,
    pub ethereum_block_hash: H256,
    pub ethereum_index: u32,
}

/// Whether a block row joins a log row in a filter over `[from_block, to_block]`:
/// same block, canonical, in range.
pub open spec fn block_joins(block: BlockRow, log: Log, from_block: u64, to_block: u64) -> bool {
    &&& block.substrate_block_hash@ == log.substrate_block_hash@
    &&& block.is_canon
    &&& from_block <= block.block_number as u64 <= to_block
}

/// Whether a value passes an address constraint: an empty list admits every value.
pub open spec fn admitted(set: Seq<Seq<u8>>, value: Seq<u8>) -> bool {
    set.len() == 0 || set.contains(value)
}

/// Whether a value passes a topic-set constraint: an empty set admits every value.
pub open spec fn set_admits(set: Set<Seq<u8>>, value: Seq<u8>) -> bool {
    set == Set::<Seq<u8>>::empty() || set.contains(value)
}

/// The four positional topic sets of a request: slot `p` holds every topic
/// that some row names at position `p`.
pub open spec fn positional_sets(topics: Seq<Vec<Option<H256>>>) -> Seq<Set<Seq<u8>>> {
    seq![
        Set::new(|h: Seq<u8>| position_values(topics, 0).contains(h)),
        Set::new(|h: Seq<u8>| position_values(topics, 1).contains(h)),
        Set::new(|h: Seq<u8>| position_values(topics, 2).contains(h)),
        Set::new(|h: Seq<u8>| position_values(topics, 3).contains(h)),
    ]
}

/// Whether a log row passes the address and positional topic constraints.
pub open spec fn log_admitted(log: Log, addresses: Seq<Seq<u8>>, sets: Seq<Set<Seq<u8>>>) -> bool {
    &&& admitted(addresses, log.address@)
    &&& set_admits(sets[0], log.topic_1@)
    &&& set_admits(sets[1], log.topic_2@)
    &&& set_admits(sets[2], log.topic_3@)
    &&& set_admits(sets[3], log.topic_4@)
}

/// Whether log row `i` answers the filter.
pub open spec fn log_selected(s: IndexState, i: int, from_block: u64, to_block: u64, addresses: Seq<Seq<u8>>, sets: Seq<Set<Seq<u8>>>) -> bool {
    &&& 0 <= i < s.logs.len()
    &&& log_admitted(s.logs[i], addresses, sets)
    &&& exists|j: int| 0 <= j < s.blocks.len() && block_joins(#[trigger] s.blocks[j], s.logs[i], from_block, to_block)
}

/// The result row for a log joined with its block.
pub open spec fn filtered_of(log: Log, block: BlockRow) -> FilteredLog {
    FilteredLog {
        substrate_block_hash: block.substrate_block_hash,
        ethereum_block_hash: block.ethereum_block_hash,
        block_number: block.block_number,
        ethereum_storage_schema: block.ethereum_storage_schema,
        transaction_index: log.transaction_index as u32,
        log_index: log.log_index as u32,
    }
}

/// Block row `j` is the first, in table order, that joins log row `i`.
pub open spec fn first_join(s: IndexState, i: int, from_block: u64, to_block: u64, j: int) -> bool {
    &&& 0 <= j < s.blocks.len()
    &&& block_joins(s.blocks[j], s.logs[i], from_block, to_block)
    &&& forall|x: int| 0 <= x < j ==> !block_joins(#[trigger] s.blocks[x], s.logs[i], from_block, to_block)
}

/// The result row of log row `i`: the log joined with its first joining block.
pub open spec fn result_of(s: IndexState, i: int, from_block: u64, to_block: u64) -> FilteredLog {
    filtered_of(s.logs[i], s.blocks[choose|j: int| first_join(s, i, from_block, to_block, j)])
}

/// Result order: block number, then transaction index, then log index.
pub open spec fn position_le(a: FilteredLog, b: FilteredLog) -> bool {
    a.block_number < b.block_number || (a.block_number == b.block_number && (a.transaction_index < b.transaction_index
        || (a.transaction_index == b.transaction_index && a.log_index <= b.log_index)))
}

pub open spec fn sorted(out: Seq<FilteredLog>) -> bool {
    forall|a: int, b: int| 0 <= a < b < out.len() ==> position_le(#[trigger] out[a], #[trigger] out[b])
}

/// Whether the result of log row `i` comes before that of log row `k`: by
/// position, and rows at the same position in table order.
pub open spec fn row_before(s: IndexState, from_block: u64, to_block: u64, i: int, k: int) -> bool {
    let a = result_of(s, i, from_block, to_block);
    let b = result_of(s, k, from_block, to_block);
    (position_le(a, b) && !position_le(b, a)) || (position_le(a, b) && position_le(b, a) && i < k)
}

/// Whether `f` is the result row of log row `i`.
pub open spec fn answers(s: IndexState, from_block: u64, to_block: u64, addresses: Seq<Seq<u8>>, sets: Seq<Set<Seq<u8>>>, f: FilteredLog, i: int) -> bool {
    &&& log_selected(s, i, from_block, to_block, addresses, sets)
    &&& f == result_of(s, i, from_block, to_block)
}

/// Every result row comes from a distinct selected log row: `src[k]` is the
/// log row of result `k`.
pub open spec fn filter_sound(s: IndexState, from_block: u64, to_block: u64, addresses: Seq<Seq<u8>>, sets: Seq<Set<Seq<u8>>>, out: Seq<FilteredLog>, src: Seq<int>) -> bool {
    &&& src.len() == out.len()
    &&& src.no_duplicates()
    &&& forall|k: int| 0 <= k < out.len() ==> #[trigger] answers(s, from_block, to_block, addresses, sets, out[k], src[k])
}

/// The result rows come in result order.
pub open spec fn filter_ordered(s: IndexState, from_block: u64, to_block: u64, src: Seq<int>) -> bool {
    forall|a: int, b: int| 0 <= a < b < src.len() ==> row_before(s, from_block, to_block, #[trigger] src[a], #[trigger] src[b])
}

/// Below the cap every selected log row is in the result; at the cap, every
/// selected row left out comes after the last row returned.
pub open spec fn filter_complete(s: IndexState, from_block: u64, to_block: u64, addresses: Seq<Seq<u8>>, sets: Seq<Set<Seq<u8>>>, out: Seq<FilteredLog>, src: Seq<int>) -> bool {
    &&& out.len() <= MAX_RESULTS + 1
    &&& out.len() < MAX_RESULTS + 1 ==> forall|i: int| #[trigger] log_selected(s, i, from_block, to_block, addresses, sets) ==> src.contains(i)
    &&& out.len() == MAX_RESULTS + 1 ==> forall|i: int| #[trigger] log_selected(s, i, from_block, to_block, addresses, sets) && !src.contains(i)
        ==> row_before(s, from_block, to_block, src.last(), i)
}

/// `out` answers the filter, `src` naming the log row of each result.
pub open spec fn filter_answer(s: IndexState, from_block: u64, to_block: u64, addresses: Seq<Seq<u8>>, sets: Seq<Set<Seq<u8>>>, out: Seq<FilteredLog>, src: Seq<int>) -> bool {
    &&& filter_sound(s, from_block, to_block, addresses, sets, out, src)
    &&& filter_ordered(s, from_block, to_block, src)
    &&& filter_complete(s, from_block, to_block, addresses, sets, out, src)
}

/// A log row has at most one first joining block.
pub proof fn lemma_first_join_unique(s: IndexState, i: int, from_block: u64, to_block: u64, j1: int, j2: int)
    requires
        first_join(s, i, from_block, to_block, j1),
        first_join(s, i, from_block, to_block, j2),
    ensures
        j1 == j2,
{
    if j1 < j2 {
        assert(!block_joins(s.blocks[j1], s.logs[i], from_block, to_block));
    } else if j2 < j1 {
        assert(!block_joins(s.blocks[j2], s.logs[i], from_block, to_block));
    }
}

/// Result order is a strict total order on log rows.
pub proof fn lemma_row_before_order(s: IndexState, from_block: u64, to_block: u64)
    ensures
        forall|i: int, k: int| #[trigger] row_before(s, from_block, to_block, i, k) ==> !row_before(s, from_block, to_block, k, i),
        forall|i: int, k: int, l: int| #[trigger] row_before(s, from_block, to_block, i, k) && #[trigger] row_before(s, from_block, to_block, k, l)
            ==> row_before(s, from_block, to_block, i, l),
        forall|i: int, k: int| i != k ==> #[trigger] row_before(s, from_block, to_block, i, k) || row_before(s, from_block, to_block, k, i),
{
}

/// Two sequences of log rows, each in result order, that hold the same rows
/// are the same sequence.
pub proof fn lemma_ordered_unique(s: IndexState, from_block: u64, to_block: u64, x: Seq<int>, y: Seq<int>)
    requires
        filter_ordered(s, from_block, to_block, x),
        filter_ordered(s, from_block, to_block, y),
        forall|z: int| #![trigger x.contains(z)] #![trigger y.contains(z)] x.contains(z) <==> y.contains(z),
    ensures
        x == y,
    decreases x.len(),
{
    lemma_row_before_order(s, from_block, to_block);
    if x.len() == 0 {
        if y.len() > 0 {
            assert(y.contains(y[0]));
        }
        assert(x =~= y);
    } else if y.len() == 0 {
        assert(x.contains(x[0]));
    } else {
        assert(x.contains(x[0]));
        assert(y.contains(y[0]));
        let b = choose|b: int| 0 <= b < y.len() && y[b] == x[0];
        let a = choose|a: int| 0 <= a < x.len() && x[a] == y[0];
        if a > 0 && b > 0 {
            assert(row_before(s, from_block, to_block, x[0], x[a]));
            assert(row_before(s, from_block, to_block, y[0], y[b]));
        }
        if a > 0 && b == 0 {
            assert(row_before(s, from_block, to_block, x[0], x[a]));
        }
        if b > 0 && a == 0 {
            assert(row_before(s, from_block, to_block, y[0], y[b]));
        }
        assert(x[0] == y[0]);
        let x1 = x.drop_first();
        let y1 = y.drop_first();
        assert forall|c: int, d: int| 0 <= c < d < x1.len() implies row_before(s, from_block, to_block, #[trigger] x1[c], #[trigger] x1[d]) by {
            assert(x1[c] == x[c + 1] && x1[d] == x[d + 1]);
        }
        assert forall|c: int, d: int| 0 <= c < d < y1.len() implies row_before(s, from_block, to_block, #[trigger] y1[c], #[trigger] y1[d]) by {
            assert(y1[c] == y[c + 1] && y1[d] == y[d + 1]);
        }
        assert forall|z: int| #![trigger x1.contains(z)] #![trigger y1.contains(z)] x1.contains(z) <==> y1.contains(z) by {
            if x1.contains(z) {
                let k = choose|k: int| 0 <= k < x1.len() && x1[k] == z;
                assert(x[k + 1] == z);
                assert(row_before(s, from_block, to_block, x[0], x[k + 1]));
                assert(x.contains(z));
                let m = choose|m: int| 0 <= m < y.len() && y[m] == z;
                assert(m != 0);
                assert(y1[m - 1] == z);
            }
            if y1.contains(z) {
                let k = choose|k: int| 0 <= k < y1.len() && y1[k] == z;
                assert(y[k + 1] == z);
                assert(row_before(s, from_block, to_block, y[0], y[k + 1]));
                assert(y.contains(z));
                let m = choose|m: int| 0 <= m < x.len() && x[m] == z;
                assert(m != 0);
                assert(x1[m - 1] == z);
            }
        }
        lemma_ordered_unique(s, from_block, to_block, x1, y1);
        assert forall|k: int| 0 <= k < x.len() implies x[k] == y[k] by {
            if k > 0 {
                assert(x[k] == x1[k - 1] && y[k] == y1[k - 1]);
            }
        }
        assert(x =~= y);
    }
}

/// The rows of `x` all come no later than its last.
proof fn lemma_up_to_last(s: IndexState, from_block: u64, to_block: u64, x: Seq<int>, z: int)
    requires
        filter_ordered(s, from_block, to_block, x),
        x.contains(z),
    ensures
        z == x.last() || row_before(s, from_block, to_block, z, x.last()),
{
    let k = choose|k: int| 0 <= k < x.len() && x[k] == z;
    if k < x.len() - 1 {
        assert(row_before(s, from_block, to_block, x[k], x[x.len() - 1]));
    }
}

/// A filter has one answer: any two results that meet the contract of
/// `filter_logs` on the same store and filter are equal.
pub proof fn lemma_filter_deterministic(
    s: IndexState,
    from_block: u64,
    to_block: u64,
    addresses: Seq<Seq<u8>>,
    sets: Seq<Set<Seq<u8>>>,
    out1: Seq<FilteredLog>,
    src1: Seq<int>,
    out2: Seq<FilteredLog>,
    src2: Seq<int>,
)
    requires
        filter_answer(s, from_block, to_block, addresses, sets, out1, src1),
        filter_answer(s, from_block, to_block, addresses, sets, out2, src2),
    ensures
        out1 == out2,
{
    broadcast use vstd::seq_lib::seq_to_set_is_finite;
    lemma_row_before_order(s, from_block, to_block);
    let cap = MAX_RESULTS + 1;
    assert forall|k: int| 0 <= k < src1.len() implies #[trigger] log_selected(s, src1[k], from_block, to_block, addresses, sets) by {
        assert(answers(s, from_block, to_block, addresses, sets, out1[k], src1[k]));
    }
    assert forall|k: int| 0 <= k < src2.len() implies #[trigger] log_selected(s, src2[k], from_block, to_block, addresses, sets) by {
        assert(answers(s, from_block, to_block, addresses, sets, out2[k], src2[k]));
    }
    src1.unique_seq_to_set();
    src2.unique_seq_to_set();
    let in1_not2 = exists|z: int| src1.contains(z) && !src2.contains(z);
    let in2_not1 = exists|z: int| src2.contains(z) && !src1.contains(z);
    if in1_not2 {
        let z = choose|z: int| src1.contains(z) && !src2.contains(z);
        let k = choose|k: int| 0 <= k < src1.len() && src1[k] == z;
        assert(log_selected(s, src1[k], from_block, to_block, addresses, sets));
        if src2.len() < cap {
            assert(src2.contains(z));
        }
    }
    if in2_not1 {
        let z = choose|z: int| src2.contains(z) && !src1.contains(z);
        let k = choose|k: int| 0 <= k < src2.len() && src2[k] == z;
        assert(log_selected(s, src2[k], from_block, to_block, addresses, sets));
        if src1.len() < cap {
            assert(src1.contains(z));
        }
    }
    if in1_not2 && in2_not1 {
        let x = choose|z: int| src1.contains(z) && !src2.contains(z);
        let y = choose|z: int| src2.contains(z) && !src1.contains(z);
        let kx = choose|k: int| 0 <= k < src1.len() && src1[k] == x;
        let ky = choose|k: int| 0 <= k < src2.len() && src2[k] == y;
        assert(log_selected(s, src1[kx], from_block, to_block, addresses, sets));
        assert(log_selected(s, src2[ky], from_block, to_block, addresses, sets));
        assert(row_before(s, from_block, to_block, src2.last(), x));
        assert(row_before(s, from_block, to_block, src1.last(), y));
        lemma_up_to_last(s, from_block, to_block, src1, x);
        lemma_up_to_last(s, from_block, to_block, src2, y);
        assert(row_before(s, from_block, to_block, src2.last(), src1.last()));
        assert(row_before(s, from_block, to_block, src1.last(), src2.last()));
    }
    if in1_not2 && !in2_not1 {
        let x = choose|z: int| src1.contains(z) && !src2.contains(z);
        assert(src2.to_set().insert(x).subset_of(src1.to_set()));
        vstd::set_lib::lemma_len_subset(src2.to_set().insert(x), src1.to_set());
    }
    if in2_not1 && !in1_not2 {
        let y = choose|z: int| src2.contains(z) && !src1.contains(z);
        assert(src1.to_set().insert(y).subset_of(src2.to_set()));
        vstd::set_lib::lemma_len_subset(src1.to_set().insert(y), src2.to_set());
    }
    assert(forall|z: int| #![trigger src1.contains(z)] #![trigger src2.contains(z)] src1.contains(z) <==> src2.contains(z));
    lemma_ordered_unique(s, from_block, to_block, src1, src2);
    assert forall|k: int| 0 <= k < out1.len() implies out1[k] == out2[k] by {
        assert(answers(s, from_block, to_block, addresses, sets, out1[k], src1[k]));
        assert(answers(s, from_block, to_block, addresses, sets, out2[k], src2[k]));
    }
    assert(out1 =~= out2);
}

/// Filters whose topic rows give the same positional sets give the same
/// result: the order of rows, repeated rows, wildcard rows and trailing
/// wildcards do not matter, and rows are never expanded into combinations.
pub proof fn lemma_equal_topic_sets_equal_results(
    s: IndexState,
    from_block: u64,
    to_block: u64,
    addresses: Seq<Seq<u8>>,
    topics1: Seq<Vec<Option<H256>>>,
    topics2: Seq<Vec<Option<H256>>>,
    out1: Seq<FilteredLog>,
    src1: Seq<int>,
    out2: Seq<FilteredLog>,
    src2: Seq<int>,
)
    requires
        forall|p: int, h: Seq<u8>| 0 <= p < 4 ==>
            (#[trigger] position_values(topics1, p).contains(h) <==> position_values(topics2, p).contains(h)),
        filter_answer(s, from_block, to_block, addresses, positional_sets(topics1), out1, src1),
        filter_answer(s, from_block, to_block, addresses, positional_sets(topics2), out2, src2),
    ensures
        out1 == out2,
{
    assert forall|p: int| 0 <= p < 4 implies #[trigger] positional_sets(topics1)[p] =~= positional_sets(topics2)[p] by {
        if p == 0 {} else if p == 1 {} else if p == 2 {} else {}
    }
    assert(positional_sets(topics1) =~= positional_sets(topics2));
    lemma_filter_deterministic(s, from_block, to_block, addresses, positional_sets(topics1), out1, src1, out2, src2);
}

/// The log rows that answer a filter.
pub open spec fn selected_rows(s: IndexState, from_block: u64, to_block: u64, addresses: Seq<Seq<u8>>, sets: Seq<Set<Seq<u8>>>) -> Set<int> {
    Set::new(|i: int| log_selected(s, i, from_block, to_block, addresses, sets))
}

/// A filter returns one row per selected log row, up to 10001 rows.
pub proof fn lemma_filter_count(
    s: IndexState,
    from_block: u64,
    to_block: u64,
    addresses: Seq<Seq<u8>>,
    sets: Seq<Set<Seq<u8>>>,
    out: Seq<FilteredLog>,
    src: Seq<int>,
)
    requires
        filter_answer(s, from_block, to_block, addresses, sets, out, src),
    ensures
        selected_rows(s, from_block, to_block, addresses, sets).finite(),
        out.len() == if selected_rows(s, from_block, to_block, addresses, sets).len() < MAX_RESULTS + 1 {
            selected_rows(s, from_block, to_block, addresses, sets).len()
        } else {
            (MAX_RESULTS + 1) as nat
        },
{
    let sel = selected_rows(s, from_block, to_block, addresses, sets);
    vstd::set_lib::lemma_int_range(0, s.logs.len() as int);
    assert(sel.subset_of(vstd::set_lib::set_int_range(0, s.logs.len() as int)));
    vstd::set_lib::lemma_len_subset(sel, vstd::set_lib::set_int_range(0, s.logs.len() as int));
    src.unique_seq_to_set();
    assert forall|z: int| src.to_set().contains(z) implies sel.contains(z) by {
        let k = choose|k: int| 0 <= k < src.len() && src[k] == z;
        assert(answers(s, from_block, to_block, addresses, sets, out[k], src[k]));
    }
    vstd::set_lib::lemma_len_subset(src.to_set(), sel);
    if out.len() < MAX_RESULTS + 1 {
        assert(sel.subset_of(src.to_set()));
        vstd::set_lib::lemma_len_subset(sel, src.to_set());
    }
}

/// Every joining block row gives a first one.
proof fn lemma_first_join_exists(s: IndexState, i: int, from_block: u64, to_block: u64, j: int)
    requires
        0 <= j < s.blocks.len(),
        block_joins(s.blocks[j], s.logs[i], from_block, to_block),
    ensures
        exists|c: int| first_join(s, i, from_block, to_block, c),
    decreases j,
{
    if exists|x: int| 0 <= x < j && block_joins(#[trigger] s.blocks[x], s.logs[i], from_block, to_block) {
        let x = choose|x: int| 0 <= x < j && block_joins(#[trigger] s.blocks[x], s.logs[i], from_block, to_block);
        lemma_first_join_exists(s, i, from_block, to_block, x);
    } else {
        assert(first_join(s, i, from_block, to_block, j));
    }
}

/// In a store whose log keys are unique, the rows of a filter result have
/// distinct keys: block hash, transaction index and log index.
pub proof fn lemma_filter_keys_distinct(
    s: IndexState,
    from_block: u64,
    to_block: u64,
    addresses: Seq<Seq<u8>>,
    sets: Seq<Set<Seq<u8>>>,
    out: Seq<FilteredLog>,
    src: Seq<int>,
)
    requires
        state_wf(s),
        filter_answer(s, from_block, to_block, addresses, sets, out, src),
    ensures
        forall|a: int, b: int| 0 <= a < out.len() && 0 <= b < out.len() && a != b ==>
            (#[trigger] out[a].substrate_block_hash@, out[a].transaction_index, out[a].log_index)
            != (#[trigger] out[b].substrate_block_hash@, out[b].transaction_index, out[b].log_index),
{
    assert forall|a: int, b: int| 0 <= a < out.len() && 0 <= b < out.len() && a != b implies
        (#[trigger] out[a].substrate_block_hash@, out[a].transaction_index, out[a].log_index)
        != (#[trigger] out[b].substrate_block_hash@, out[b].transaction_index, out[b].log_index) by {
        assert(answers(s, from_block, to_block, addresses, sets, out[a], src[a]));
        assert(answers(s, from_block, to_block, addresses, sets, out[b], src[b]));
        let ia = src[a];
        let ib = src[b];
        let ja = choose|j: int| 0 <= j < s.blocks.len() && block_joins(#[trigger] s.blocks[j], s.logs[ia], from_block, to_block);
        let jb = choose|j: int| 0 <= j < s.blocks.len() && block_joins(#[trigger] s.blocks[j], s.logs[ib], from_block, to_block);
        lemma_first_join_exists(s, ia, from_block, to_block, ja);
        lemma_first_join_exists(s, ib, from_block, to_block, jb);
        let ca = choose|c: int| first_join(s, ia, from_block, to_block, c);
        let cb = choose|c: int| first_join(s, ib, from_block, to_block, c);
        assert(out[a].substrate_block_hash@ == s.logs[ia].substrate_block_hash@);
        assert(out[b].substrate_block_hash@ == s.logs[ib].substrate_block_hash@);
        assert(ia != ib);
        let (ta, tb) = (s.logs[ia].transaction_index, s.logs[ib].transaction_index);
        let (la, lb) = (s.logs[ia].log_index, s.logs[ib].log_index);
        assert(out[a].transaction_index == ta as u32 && out[b].transaction_index == tb as u32);
        assert(out[a].log_index == la as u32 && out[b].log_index == lb as u32);
        assert(ta as u32 == tb as u32 ==> ta == tb) by (bit_vector);
        assert(la as u32 == lb as u32 ==> la == lb) by (bit_vector);
        if ia < ib {
            assert(log_key()(s.logs[ia]) != log_key()(s.logs[ib]));
        } else {
            assert(log_key()(s.logs[ib]) != log_key()(s.logs[ia]));
        }
    }
}

/// The native hashes of the blocks with Ethereum hash `h`, among the first `n` rows.
pub open spec fn blocks_with_hash(blocks: Seq<BlockRow>, h: Seq<u8>, n: int) -> Seq<Seq<u8>>
    decreases n,
{
    if n <= 0 {
        Seq::empty()
    } else if blocks[n - 1].ethereum_block_hash@ == h {
        blocks_with_hash(blocks, h, n - 1).push(blocks[n - 1].substrate_block_hash@)
    } else {
        blocks_with_hash(blocks, h, n - 1)
    }
}

/// Where the transaction with hash `h` was included, among the first `n` rows.
pub open spec fn transactions_with_hash(rows: Seq<TransactionRow>, h: Seq<u8>, n: int) -> Seq<TransactionMetadata>
    decreases n,
{
    if n <= 0 {
        Seq::empty()
    } else if rows[n - 1].ethereum_transaction_hash@ == h {
        transactions_with_hash(rows, h, n - 1).push(TransactionMetadata {
            block_hash: rows[n - 1].substrate_block_hash,
            ethereum_block_hash: rows[n - 1].ethereum_block_hash,
            ethereum_index: rows[n - 1].ethereum_transaction_index,
        })
    } else {
        transactions_with_hash(rows, h, n - 1)
    }
}

/// Whether some hash of `v` has the bytes `b`.
fn contains_bytes(v: &Vec<H256>, b: &[u8]) -> (r: bool)
    ensures
        r == hashes_view(v@).contains(b@),
{
    let mut i: usize = 0;
    while i < v.len()
        invariant
            0 <= i <= v@.len(),
            forall|j: int| 0 <= j < i ==> v@[j]@ != b@,
        decreases v@.len() - i,
    {
        if bytes_equal(v[i].0.as_slice(), b) {
            assert(hashes_view(v@)[i as int] == b@);
            return true;
        }
        i = i + 1;
    }
    proof {
        if hashes_view(v@).contains(b@) {
            let k = choose|k: int| 0 <= k < hashes_view(v@).len() && hashes_view(v@)[k] == b@;
            assert(v@[k]@ == b@);
        }
    }
    false
}

/// Whether the bytes `b` pass the set constraint `v`.
fn admits(v: &Vec<H256>, b: &[u8]) -> (r: bool)
    ensures
        r == admitted(hashes_view(v@), b@),
{
    v.len() == 0 || contains_bytes(v, b)
}

/// Whether the bytes `b` pass the address constraint.
fn admits_address(addresses: &Vec<H160>, b: &[u8]) -> (r: bool)
    ensures
        r == admitted(addresses_view(addresses@), b@),
{
    if addresses.len() == 0 {
        return true;
    }
    let mut i: usize = 0;
    while i < addresses.len()
        invariant
            0 <= i <= addresses@.len(),
            forall|j: int| 0 <= j < i ==> addresses@[j]@ != b@,
        decreases addresses@.len() - i,
    {
        if bytes_equal(addresses[i].0.as_slice(), b) {
            assert(addresses_view(addresses@)[i as int] == b@);
            return true;
        }
        i = i + 1;
    }
    proof {
        if addresses_view(addresses@).contains(b@) {
            let k = choose|k: int| 0 <= k < addresses_view(addresses@).len() && addresses_view(addresses@)[k] == b@;
            assert(addresses@[k]@ == b@);
        }
    }
    false
}

fn find_join(blocks: &Vec<BlockRow>, log: &Log, from_block: u64, to_block: u64) -> (r: Option<usize>)
    ensures
        r is Some ==> r->Some_0 < blocks@.len() && block_joins(blocks@[r->Some_0 as int], *log, from_block, to_block)
            && forall|x: int| 0 <= x < r->Some_0 ==> !block_joins(#[trigger] blocks@[x], *log, from_block, to_block),
        r is None ==> forall|j: int| 0 <= j < blocks@.len() ==> !block_joins(#[trigger] blocks@[j], *log, from_block, to_block),
{
    let mut j: usize = 0;
    while j < blocks.len()
        invariant
            0 <= j <= blocks@.len(),
            forall|x: int| 0 <= x < j ==> !block_joins(#[trigger] blocks@[x], *log, from_block, to_block),
        decreases blocks@.len() - j,
    {
        let b = &blocks[j];
        if b.is_canon && from_block <= b.block_number as u64 && b.block_number as u64 <= to_block
            && bytes_equal(b.substrate_block_hash.0.as_slice(), log.substrate_block_hash.as_slice()) {
            return Some(j);
        }
        j = j + 1;
    }
    None
}

proof fn lemma_set_admits(v: Seq<Seq<u8>>, set: Set<Seq<u8>>, value: Seq<u8>)
    requires
        forall|h: Seq<u8>| #[trigger] v.contains(h) <==> set.contains(h),
    ensures
        admitted(v, value) == set_admits(set, value),
{
    if v.len() == 0 {
        assert forall|h: Seq<u8>| !set.contains(h) by {
            if set.contains(h) {
                assert(v.contains(h));
                let k = choose|k: int| 0 <= k < v.len() && v[k] == h;
            }
        }
        assert(set =~= Set::<Seq<u8>>::empty());
    } else {
        assert(v.contains(v[0]));
        assert(set.contains(v[0]));
    }
}

fn position_le_exec(a: &FilteredLog, b: &FilteredLog) -> (r: bool)
    ensures
        r == position_le(*a, *b),
{
    a.block_number < b.block_number || (a.block_number == b.block_number && (a.transaction_index < b.transaction_index
        || (a.transaction_index == b.transaction_index && a.log_index <= b.log_index)))
}

/// Writing the same batch of block metadata twice leaves the index as
/// writing it once does.
pub proof fn lemma_metadata_idempotent(s: IndexState, metadata: Seq<BlockMetadata>, hashes: Seq<H256>)
    ensures
        metadata_applied(metadata_applied(s, metadata, hashes), metadata, hashes) == metadata_applied(s, metadata, hashes),
{
    lemma_insert_or_ignore_idempotent(s.blocks, block_rows(metadata), block_key());
    lemma_insert_or_ignore_idempotent(s.transactions, transaction_rows(metadata), transaction_key());
    lemma_insert_or_ignore_idempotent(s.sync_status, sync_rows(hashes), sync_key());
}

/// A reorg touches only the canonical flag of the blocks it names: every
/// other row of every table is as it was.
pub proof fn lemma_canonicalize_untouched(s: IndexState, retracted: Seq<H256>, enacted: Seq<H256>, i: int)
    requires
        0 <= i < s.blocks.len(),
        !hashes_view(retracted).contains(s.blocks[i].substrate_block_hash@),
        !hashes_view(enacted).contains(s.blocks[i].substrate_block_hash@),
    ensures
        canonicalized(s, retracted, enacted).blocks[i] == s.blocks[i],
        canonicalized(s, retracted, enacted).blocks.len() == s.blocks.len(),
        canonicalized(s, retracted, enacted).transactions == s.transactions,
        canonicalized(s, retracted, enacted).logs == s.logs,
        canonicalized(s, retracted, enacted).sync_status == s.sync_status,
{
}

/// Retracting a set of blocks and then enacting the same set gives every
/// block back the canonical flag it had, provided the blocks of the set were
/// canonical to begin with.
pub proof fn lemma_canonicalize_round_trip(s: IndexState, blocks: Seq<H256>)
    requires
        forall|i: int| 0 <= i < s.blocks.len() && hashes_view(blocks).contains(#[trigger] s.blocks[i].substrate_block_hash@)
            ==> s.blocks[i].is_canon,
    ensures
        canonicalized(canonicalized(s, blocks, Seq::empty()), Seq::empty(), blocks) == s,
{
    let once = canonicalized(s, blocks, Seq::empty());
    let twice = canonicalized(once, Seq::empty(), blocks);
    assert(hashes_view(Seq::<H256>::empty()) =~= Seq::empty());
    assert(twice.blocks =~= s.blocks);
}

/// Once a claim has taken a queue row, no later claim takes it again, so two
/// passes never read the logs of the same block.
pub proof fn lemma_claims_disjoint(s: IndexState, first: nat, second: nat, i: int)
    requires
        0 <= i < s.sync_status.len(),
        claimed_by(s.sync_status, i, first),
    ensures
        !claimed_by(claim_applied(s, first).sync_status, i, second),
{
}

/// A pass that writes log rows, replayed with the same rows, leaves the
/// logs as the first pass left them, and the logs' unique key is never
/// violated.
pub proof fn lemma_log_writes_replay_safe(s: IndexState, logs: Seq<Log>)
    requires
        state_wf(s),
    ensures
        logs_applied(logs_applied(s, logs), logs) == logs_applied(s, logs),
        state_wf(logs_applied(s, logs)),
{
    lemma_insert_or_ignore_idempotent(s.logs, logs, log_key());
    lemma_insert_or_ignore(s.logs, logs, log_key());
}

/// The reference model of the log index, held in memory: blocks,
/// transactions, logs and the queue of blocks whose logs are still to be read.
pub struct IndexStore {
    blocks: Vec<BlockRow>,
    transactions: Vec<TransactionRow>,
    logs: Vec<Log>,
    sync_status: Vec<SyncRow>,
}

impl View for IndexStore {
    type V = IndexState;

    closed spec fn view(&self) -> IndexState {
        IndexState {
            blocks: self.blocks@,
            transactions: self.transactions@,
            logs: self.logs@,
            sync_status: self.sync_status@,
        }
    }
}

fn find_block(rows: &Vec<BlockRow>, row: &BlockRow) -> (r: bool)
    ensures
        r == has_key(rows@, block_key(), block_key()(*row)),
{
    let mut i: usize = 0;
    while i < rows.len()
        invariant
            0 <= i <= rows@.len(),
            forall|j: int| 0 <= j < i ==> block_key()(#[trigger] rows@[j]) != block_key()(*row),
        decreases rows@.len() - i,
    {
        if rows[i].ethereum_block_hash.equals(&row.ethereum_block_hash)
            && rows[i].substrate_block_hash.equals(&row.substrate_block_hash) {
            assert(block_key()(rows@[i as int]) == block_key()(*row));
            return true;
        }
        i = i + 1;
    }
    false
}

fn find_transaction(rows: &Vec<TransactionRow>, row: &TransactionRow) -> (r: bool)
    ensures
        r == has_key(rows@, transaction_key(), transaction_key()(*row)),
{
    let mut i: usize = 0;
    while i < rows.len()
        invariant
            0 <= i <= rows@.len(),
            forall|j: int| 0 <= j < i ==> transaction_key()(#[trigger] rows@[j]) != transaction_key()(*row),
        decreases rows@.len() - i,
    {
        if rows[i].ethereum_transaction_hash.equals(&row.ethereum_transaction_hash)
            && rows[i].substrate_block_hash.equals(&row.substrate_block_hash) {
            assert(transaction_key()(rows@[i as int]) == transaction_key()(*row));
            return true;
        }
        i = i + 1;
    }
    false
}

fn find_sync(rows: &Vec<SyncRow>, hash: &H256) -> (r: bool)
    ensures
        r == has_key(rows@, sync_key(), hash@),
{
    let mut i: usize = 0;
    while i < rows.len()
        invariant
            0 <= i <= rows@.len(),
            forall|j: int| 0 <= j < i ==> sync_key()(#[trigger] rows@[j]) != hash@,
        decreases rows@.len() - i,
    {
        if rows[i].substrate_block_hash.equals(hash) {
            assert(sync_key()(rows@[i as int]) == hash@);
            return true;
        }
        i = i + 1;
    }
    false
}

fn find_log(rows: &Vec<Log>, row: &Log) -> (r: bool)
    ensures
        r == has_key(rows@, log_key(), log_key()(*row)),
{
    let mut i: usize = 0;
    while i < rows.len()
        invariant
            0 <= i <= rows@.len(),
            forall|j: int| 0 <= j < i ==> log_key()(#[trigger] rows@[j]) != log_key()(*row),
        decreases rows@.len() - i,
    {
        if rows[i].log_index == row.log_index && rows[i].transaction_index == row.transaction_index
            && bytes_equal(rows[i].substrate_block_hash.as_slice(), row.substrate_block_hash.as_slice()) {
            assert(log_key()(rows@[i as int]) == log_key()(*row));
            return true;
        }
        i = i + 1;
    }
    false
}

impl IndexStore {
    /// Every table of the store holds at most one row per unique key.
    pub open spec fn wf(&self) -> bool {
        state_wf(self@)
    }

    /// An empty index.
    pub fn new() -> (r: IndexStore)
        ensures
            r.wf(),
            r@.blocks.len() == 0,
            r@.transactions.len() == 0,
            r@.logs.len() == 0,
            r@.sync_status.len() == 0,
    {
        IndexStore { blocks: Vec::new(), transactions: Vec::new(), logs: Vec::new(), sync_status: Vec::new() }
    }

    /// The block rows, in the order they were inserted.
    pub fn blocks(&self) -> (r: &Vec<BlockRow>)
        ensures
            r@ == self@.blocks,
    {
        &self.blocks
    }

    /// The transaction rows, in the order they were inserted.
    pub fn transactions(&self) -> (r: &Vec<TransactionRow>)
        ensures
            r@ == self@.transactions,
    {
        &self.transactions
    }

    /// The log rows, in the order they were inserted.
    pub fn logs(&self) -> (r: &Vec<Log>)
        ensures
            r@ == self@.logs,
    {
        &self.logs
    }

    /// The sync queue, in the order it was filled.
    pub fn sync_status(&self) -> (r: &Vec<SyncRow>)
        ensures
            r@ == self@.sync_status,
    {
        &self.sync_status
    }

    /// Answers a log filter: the canonical logs in the block range whose
    /// address is among `addresses` and whose topic at each position is in
    /// that position's set (an empty list or set constrains nothing), each
    /// joined with its first joining block, ordered by block number,
    /// transaction index and log index, ties in table order, at most 10001
    /// rows. A topic row longer than four positions is refused.
    pub fn filter_logs(&self, from_block: u64, to_block: u64, addresses: &Vec<H160>, topics: &Vec<Vec<Option<H256>>>)
        -> (r: Result<Vec<FilteredLog>, FilterError>)
        requires
            self.wf(),
        ensures
            r is Err <==> !topics_valid(topics@),
            r is Err ==> r->Err_0 == FilterError::InvalidTopicInput,
            r is Ok ==> sorted(r->Ok_0@),
            r is Ok ==> exists|src: Seq<int>|
                #[trigger] filter_answer(self@, from_block, to_block, addresses_view(addresses@), positional_sets(topics@), r->Ok_0@, src),
    {
        let sets = match unique_topics(topics) {
            Ok(sets) => sets,
            Err(e) => return Err(e),
        };
        let ghost s = self@;
        let ghost av = addresses_view(addresses@);
        let ghost ps = positional_sets(topics@);
        proof {
            assert forall|p: int, h: Seq<u8>| 0 <= p < 4 implies
                (#[trigger] hashes_view(sets@[p]@).contains(h) <==> ps[p].contains(h)) by {
                assert(hashes_view(sets@[p]@).contains(h) <==> position_values(topics@, p).contains(h));
            }
        }
        let mut out: Vec<FilteredLog> = Vec::new();
        let ghost mut src: Seq<int> = Seq::empty();
        let mut i: usize = 0;
        while i < self.logs.len()
            invariant
                0 <= i <= s.logs.len(),
                s == self@,
                av == addresses_view(addresses@),
                ps == positional_sets(topics@),
                forall|p: int, h: Seq<u8>| 0 <= p < 4 ==> (#[trigger] hashes_view(sets@[p]@).contains(h) <==> ps[p].contains(h)),
                sorted(out@),
                filter_sound(s, from_block, to_block, av, ps, out@, src),
                filter_ordered(s, from_block, to_block, src),
                forall|k: int| 0 <= k < src.len() ==> #[trigger] src[k] < i,
                forall|x: int| 0 <= x < i && #[trigger] log_selected(s, x, from_block, to_block, av, ps) ==> src.contains(x),
            decreases s.logs.len() - i,
        {
            let log = &self.logs[i];
            let admitted_here = admits_address(addresses, log.address.as_slice())
                && admits(&sets[0], log.topic_1.as_slice())
                && admits(&sets[1], log.topic_2.as_slice())
                && admits(&sets[2], log.topic_3.as_slice())
                && admits(&sets[3], log.topic_4.as_slice());
            proof {
                lemma_set_admits(hashes_view(sets@[0]@), ps[0], log.topic_1@);
                lemma_set_admits(hashes_view(sets@[1]@), ps[1], log.topic_2@);
                lemma_set_admits(hashes_view(sets@[2]@), ps[2], log.topic_3@);
                lemma_set_admits(hashes_view(sets@[3]@), ps[3], log.topic_4@);
                assert(admitted_here == log_admitted(s.logs[i as int], av, ps));
            }
            if admitted_here {
                match find_join(&self.blocks, log, from_block, to_block) {
                    Some(j) => {
                        let b = &self.blocks[j];
                        let f = FilteredLog {
                            substrate_block_hash: b.substrate_block_hash,
                            ethereum_block_hash: b.ethereum_block_hash,
                            block_number: b.block_number,
                            ethereum_storage_schema: b.ethereum_storage_schema,
                            transaction_index: log.transaction_index as u32,
                            log_index: log.log_index as u32,
                        };
                        proof {
                            assert(first_join(s, i as int, from_block, to_block, j as int));
                            let c = choose|c: int| first_join(s, i as int, from_block, to_block, c);
                            lemma_first_join_unique(s, i as int, from_block, to_block, j as int, c);
                            assert(f == result_of(s, i as int, from_block, to_block));
                            assert(log_selected(s, i as int, from_block, to_block, av, ps));
                            assert(answers(s, from_block, to_block, av, ps, f, i as int));
                        }
                        let mut pos: usize = 0;
                        while pos < out.len() && position_le_exec(&out[pos], &f)
                            invariant
                                0 <= pos <= out@.len(),
                                forall|k: int| 0 <= k < pos ==> position_le(#[trigger] out@[k], f),
                            decreases out@.len() - pos,
                        {
                            pos = pos + 1;
                        }
                        let ghost old_out = out@;
                        let ghost old_src = src;
                        out.insert(pos, f);
                        proof {
                            src = src.insert(pos as int, i as int);
                            assert forall|k: int| pos <= k < old_out.len() implies !position_le(#[trigger] old_out[k], f) by {
                                if position_le(old_out[k], f) {
                                    assert(position_le(old_out[pos as int], old_out[k]));
                                }
                            }
                            assert forall|a: int, c: int| 0 <= a < c < out@.len() implies position_le(#[trigger] out@[a], #[trigger] out@[c]) by {
                                if c < pos {
                                    assert(out@[a] == old_out[a] && out@[c] == old_out[c]);
                                } else if c == pos {
                                    assert(out@[a] == old_out[a]);
                                } else if a < pos {
                                    assert(out@[a] == old_out[a] && out@[c] == old_out[c - 1]);
                                } else if a == pos {
                                    assert(out@[c] == old_out[c - 1]);
                                } else {
                                    assert(out@[a] == old_out[a - 1] && out@[c] == old_out[c - 1]);
                                }
                            }
                            assert forall|k: int| 0 <= k < out@.len() implies #[trigger] answers(s, from_block, to_block, av, ps, out@[k], src[k]) by {
                                if k < pos {
                                    assert(out@[k] == old_out[k] && src[k] == old_src[k]);
                                    assert(answers(s, from_block, to_block, av, ps, old_out[k], old_src[k]));
                                } else if k > pos {
                                    assert(out@[k] == old_out[k - 1] && src[k] == old_src[k - 1]);
                                    assert(answers(s, from_block, to_block, av, ps, old_out[k - 1], old_src[k - 1]));
                                }
                            }
                            assert forall|a: int, c: int| 0 <= a < c < src.len() implies
                                row_before(s, from_block, to_block, #[trigger] src[a], #[trigger] src[c]) by {
                                let a0 = if a < pos { a } else { a - 1 };
                                let c0 = if c < pos { c } else { c - 1 };
                                if a != pos as int && c != pos as int {
                                    assert(src[a] == old_src[a0] && src[c] == old_src[c0]);
                                    assert(row_before(s, from_block, to_block, old_src[a0], old_src[c0]));
                                } else if a == pos {
                                    assert(src[c] == old_src[c0]);
                                    assert(answers(s, from_block, to_block, av, ps, old_out[c0], old_src[c0]));
                                    assert(!position_le(old_out[c0], f));
                                } else {
                                    assert(src[a] == old_src[a0]);
                                    assert(answers(s, from_block, to_block, av, ps, old_out[a0], old_src[a0]));
                                    assert(position_le(old_out[a0], f));
                                    assert(old_src[a0] < i);
                                }
                            }
                            assert forall|a: int, c: int| 0 <= a < src.len() && 0 <= c < src.len() && a != c implies src[a] != src[c] by {
                                if a != pos as int && c != pos as int {
                                    let a0 = if a < pos { a } else { a - 1 };
                                    let c0 = if c < pos { c } else { c - 1 };
                                    assert(src[a] == old_src[a0] && src[c] == old_src[c0]);
                                } else if a == pos {
                                    let c0 = if c < pos { c } else { c - 1 };
                                    assert(src[c] == old_src[c0]);
                                    assert(old_src[c0] < i);
                                } else {
                                    let a0 = if a < pos { a } else { a - 1 };
                                    assert(src[a] == old_src[a0]);
                                    assert(old_src[a0] < i);
                                }
                            }
                            assert forall|k: int| 0 <= k < src.len() implies #[trigger] src[k] < i + 1 by {
                                if k < pos {
                                    assert(src[k] == old_src[k]);
                                } else if k > pos {
                                    assert(src[k] == old_src[k - 1]);
                                }
                            }
                            assert forall|x: int| 0 <= x < i + 1 && #[trigger] log_selected(s, x, from_block, to_block, av, ps) implies src.contains(x) by {
                                if x < i {
                                    assert(old_src.contains(x));
                                    let k = choose|k: int| 0 <= k < old_src.len() && old_src[k] == x;
                                    if k < pos {
                                        assert(src[k] == x);
                                    } else {
                                        assert(src[k + 1] == x);
                                    }
                                } else {
                                    assert(src[pos as int] == x);
                                }
                            }
                        }
                    },
                    None => {
                        assert(!log_selected(s, i as int, from_block, to_block, av, ps));
                    },
                }
            } else {
                assert(!log_selected(s, i as int, from_block, to_block, av, ps));
            }
            i = i + 1;
        }
        let ghost full_out = out@;
        let ghost full_src = src;
        out.truncate(MAX_RESULTS + 1);
        proof {
            if full_out.len() > MAX_RESULTS + 1 {
                src = full_src.subrange(0, MAX_RESULTS + 1);
                assert forall|a: int, c: int| 0 <= a < c < out@.len() implies position_le(#[trigger] out@[a], #[trigger] out@[c]) by {
                    assert(out@[a] == full_out[a] && out@[c] == full_out[c]);
                }
                assert forall|k: int| 0 <= k < out@.len() implies #[trigger] answers(s, from_block, to_block, av, ps, out@[k], src[k]) by {
                    assert(out@[k] == full_out[k] && src[k] == full_src[k]);
                    assert(answers(s, from_block, to_block, av, ps, full_out[k], full_src[k]));
                }
                assert forall|a: int, c: int| 0 <= a < c < src.len() implies
                    row_before(s, from_block, to_block, #[trigger] src[a], #[trigger] src[c]) by {
                    assert(src[a] == full_src[a] && src[c] == full_src[c]);
                }
                assert forall|x: int| #[trigger] log_selected(s, x, from_block, to_block, av, ps) && !src.contains(x) implies
                    row_before(s, from_block, to_block, src.last(), x) by {
                    assert(full_src.contains(x));
                    let k = choose|k: int| 0 <= k < full_src.len() && full_src[k] == x;
                    if k < MAX_RESULTS + 1 {
                        assert(src[k] == x);
                    }
                    assert(src.last() == full_src[MAX_RESULTS as int]);
                    assert(row_before(s, from_block, to_block, full_src[MAX_RESULTS as int], full_src[k]));
                }
            }
            assert(filter_sound(s, from_block, to_block, av, ps, out@, src));
            assert(filter_ordered(s, from_block, to_block, src));
            assert(filter_complete(s, from_block, to_block, av, ps, out@, src));
            assert(filter_answer(self@, from_block, to_block, addresses_view(addresses@), positional_sets(topics@), out@, src));
        }
        assert(exists|w: Seq<int>| #[trigger] filter_answer(self@, from_block, to_block, addresses_view(addresses@), positional_sets(topics@), out@, w));
        let r: Result<Vec<FilteredLog>, FilterError> = Ok(out);
        assert(r->Ok_0@ == out@);
        r
    }

    /// The native hashes of every block, across forks, whose Ethereum hash is
    /// `ethereum_block_hash`, in table order.
    pub fn block_hash(&self, ethereum_block_hash: &H256) -> (r: Vec<H256>)
        ensures
            hashes_view(r@) == blocks_with_hash(self@.blocks, ethereum_block_hash@, self@.blocks.len() as int),
    {
        let mut out: Vec<H256> = Vec::new();
        let mut i: usize = 0;
        while i < self.blocks.len()
            invariant
                0 <= i <= self.blocks@.len(),
                hashes_view(out@) == blocks_with_hash(self.blocks@, ethereum_block_hash@, i as int),
            decreases self.blocks@.len() - i,
        {
            if self.blocks[i].ethereum_block_hash.equals(ethereum_block_hash) {
                out.push(self.blocks[i].substrate_block_hash);
                assert(hashes_view(out@) =~= hashes_view(out@.drop_last()).push(self.blocks@[i as int].substrate_block_hash@));
            }
            i = i + 1;
        }
        out
    }

    /// Where the transaction with hash `ethereum_transaction_hash` was
    /// included, one entry per block that holds it, in table order.
    pub fn transaction_metadata(&self, ethereum_transaction_hash: &H256) -> (r: Vec<TransactionMetadata>)
        ensures
            r@ == transactions_with_hash(self@.transactions, ethereum_transaction_hash@, self@.transactions.len() as int),
    {
        let mut out: Vec<TransactionMetadata> = Vec::new();
        let mut i: usize = 0;
        while i < self.transactions.len()
            invariant
                0 <= i <= self.transactions@.len(),
                out@ == transactions_with_hash(self.transactions@, ethereum_transaction_hash@, i as int),
            decreases self.transactions@.len() - i,
        {
            let row = &self.transactions[i];
            if row.ethereum_transaction_hash.equals(ethereum_transaction_hash) {
                out.push(TransactionMetadata {
                    block_hash: row.substrate_block_hash,
                    ethereum_block_hash: row.ethereum_block_hash,
                    ethereum_index: row.ethereum_transaction_index,
                });
            }
            i = i + 1;
        }
        out
    }

    /// Whether the store answers log filters; it always does.
    pub fn is_indexed(&self) -> (r: bool)
        ensures
            r,
    {
        true
    }

    /// Records a batch of blocks: a block row and its transaction rows for each
    /// metadata entry, and a pending queue row for each hash of the batch.
    /// Rows whose key is already present are left as they are, so replaying a
    /// batch is harmless.
    pub fn insert_block_metadata(&mut self, metadata: &Vec<BlockMetadata>, hashes: &Vec<H256>)
        requires
            old(self).wf(),
        ensures
            final(self).wf(),
            final(self)@ == metadata_applied(old(self)@, metadata@, hashes@),
    {
        let ghost s0 = self@;
        let mut i: usize = 0;
        while i < metadata.len()
            invariant
                0 <= i <= metadata@.len(),
                self.wf(),
                self@ == metadata_applied(s0, metadata@.subrange(0, i as int), Seq::empty()),
            decreases metadata@.len() - i,
        {
            let ghost prefix = metadata@.subrange(0, i as int);
            let ghost next = metadata@.subrange(0, i + 1);
            assert(next.drop_last() == prefix);
            let m = &metadata[i];
            let row = BlockRow {
                block_number: m.block_number,
                ethereum_block_hash: m.post_hashes.block_hash,
                substrate_block_hash: m.substrate_block_hash,
                ethereum_storage_schema: m.schema,
                is_canon: m.is_canon,
            };
            proof {
                lemma_insert_one(self.blocks@, row, block_key());
                assert(block_rows(next) =~= block_rows(prefix).push(row));
                assert(block_rows(next).drop_last() == block_rows(prefix));
            }
            if !find_block(&self.blocks, &row) {
                self.blocks.push(row);
            }
            let ghost tx_base = self.transactions@;
            let ghost mid = self@;
            let txs = &m.post_hashes.transaction_hashes;
            let mut j: usize = 0;
            while j < txs.len()
                invariant
                    0 <= j <= txs@.len(),
                    i < metadata@.len(),
                    m == &metadata@[i as int],
                    self.blocks@ == mid.blocks,
                    self.logs@ == mid.logs,
                    self.sync_status@ == mid.sync_status,
                    txs == &metadata@[i as int].post_hashes.transaction_hashes,
                    keys_unique(self.transactions@, transaction_key()),
                    self.transactions@ == insert_or_ignore(tx_base, block_transaction_rows(metadata@[i as int]).subrange(0, j as int), transaction_key()),
                decreases txs@.len() - j,
            {
                let tx = TransactionRow {
                    ethereum_transaction_hash: txs[j],
                    substrate_block_hash: m.substrate_block_hash,
                    ethereum_block_hash: m.post_hashes.block_hash,
                    ethereum_transaction_index: j as u32,
                };
                proof {
                    let all = block_transaction_rows(metadata@[i as int]);
                    assert(all.subrange(0, j + 1).drop_last() == all.subrange(0, j as int));
                    assert(all.subrange(0, j + 1).last() == tx);
                    lemma_insert_one(self.transactions@, tx, transaction_key());
                }
                if !find_transaction(&self.transactions, &tx) {
                    self.transactions.push(tx);
                }
                j = j + 1;
            }
            proof {
                let all = block_transaction_rows(metadata@[i as int]);
                assert(all.subrange(0, j as int) == all);
                assert(next.last() == metadata@[i as int]);
                assert(transaction_rows(next) == transaction_rows(prefix) + all);
                lemma_insert_or_ignore_concat(s0.transactions, transaction_rows(prefix), all, transaction_key());
            }
            i = i + 1;
        }
        assert(metadata@.subrange(0, metadata@.len() as int) == metadata@);
        let ghost s1 = self@;
        let mut k: usize = 0;
        while k < hashes.len()
            invariant
                0 <= k <= hashes@.len(),
                self.wf(),
                self@ == (IndexState {
                    sync_status: insert_or_ignore(s1.sync_status, sync_rows(hashes@.subrange(0, k as int)), sync_key()),
                    ..s1
                }),
            decreases hashes@.len() - k,
        {
            let row = SyncRow { substrate_block_hash: hashes[k], claimed: false };
            proof {
                assert(sync_rows(hashes@.subrange(0, k + 1)) =~= sync_rows(hashes@.subrange(0, k as int)).push(row));
                assert(sync_rows(hashes@.subrange(0, k + 1)).drop_last() == sync_rows(hashes@.subrange(0, k as int)));
                lemma_insert_one(self.sync_status@, row, sync_key());
            }
            if !find_sync(&self.sync_status, &hashes[k]) {
                self.sync_status.push(row);
            }
            k = k + 1;
        }
        assert(hashes@.subrange(0, hashes@.len() as int) == hashes@);
        assert(sync_rows(Seq::<H256>::empty()) =~= Seq::empty());
    }

    /// Applies a reorg in one step: blocks in `retracted` stop being canonical,
    /// then blocks in `enacted` become canonical. No other row changes.
    pub fn canonicalize(&mut self, retracted: &Vec<H256>, enacted: &Vec<H256>)
        requires
            old(self).wf(),
        ensures
            final(self).wf(),
            final(self)@ == canonicalized(old(self)@, retracted@, enacted@),
    {
        let ghost s0 = self@;
        let mut i: usize = 0;
        while i < self.blocks.len()
            invariant
                0 <= i <= s0.blocks.len(),
                self.blocks@.len() == s0.blocks.len(),
                self.transactions@ == s0.transactions,
                self.logs@ == s0.logs,
                self.sync_status@ == s0.sync_status,
                forall|j: int| 0 <= j < i ==> self.blocks@[j] == #[trigger] canon_after(s0.blocks[j], retracted@, enacted@),
                forall|j: int| i <= j < s0.blocks.len() ==> self.blocks@[j] == s0.blocks[j],
            decreases s0.blocks.len() - i,
        {
            let mut row = self.blocks[i];
            if contains_hash(enacted, &row.substrate_block_hash) {
                row.is_canon = true;
            } else if contains_hash(retracted, &row.substrate_block_hash) {
                row.is_canon = false;
            }
            self.blocks.set(i, row);
            i = i + 1;
        }
        assert(self@.blocks =~= canonicalized(s0, retracted@, enacted@).blocks);
        proof {
            assert forall|a: int, b: int| 0 <= a < b < self@.blocks.len() implies
                block_key()(#[trigger] self@.blocks[a]) != block_key()(#[trigger] self@.blocks[b]) by {
                assert(block_key()(s0.blocks[a]) != block_key()(s0.blocks[b]));
            }
        }
    }

    /// Claims up to `max` pending blocks for a log-reading pass: the first
    /// `max` pending rows of the queue, in order, are marked claimed and their
    /// hashes returned. A row once claimed is never returned again.
    pub fn claim_pending(&mut self, max: usize) -> (r: Vec<H256>)
        requires
            old(self).wf(),
        ensures
            final(self).wf(),
            final(self)@ == claim_applied(old(self)@, max as nat),
            hashes_view(r@) == claimed_hashes(old(self)@.sync_status, max as nat, old(self)@.sync_status.len() as int),
    {
        let ghost s0 = self@;
        let ghost rows0 = s0.sync_status;
        let mut out: Vec<H256> = Vec::new();
        let mut taken: usize = 0;
        let mut i: usize = 0;
        while i < self.sync_status.len()
            invariant
                0 <= i <= rows0.len(),
                rows0 == s0.sync_status,
                self.sync_status@.len() == rows0.len(),
                self.blocks@ == s0.blocks,
                self.transactions@ == s0.transactions,
                self.logs@ == s0.logs,
                taken as nat == if pending_count(rows0.subrange(0, i as int)) < max as nat {
                    pending_count(rows0.subrange(0, i as int))
                } else {
                    max as nat
                },
                forall|j: int| 0 <= j < i ==> self.sync_status@[j] == #[trigger] claim_applied(s0, max as nat).sync_status[j],
                forall|j: int| i <= j < rows0.len() ==> self.sync_status@[j] == rows0[j],
                hashes_view(out@) == claimed_hashes(rows0, max as nat, i as int),
            decreases rows0.len() - i,
        {
            let row = self.sync_status[i];
            proof {
                assert(rows0.subrange(0, i + 1).drop_last() == rows0.subrange(0, i as int));
                assert(rows0.subrange(0, i + 1).last() == rows0[i as int]);
            }
            if !row.claimed && taken < max {
                self.sync_status.set(i, SyncRow { substrate_block_hash: row.substrate_block_hash, claimed: true });
                out.push(row.substrate_block_hash);
                taken = taken + 1;
                assert(hashes_view(out@) =~= hashes_view(out@.drop_last()).push(row.substrate_block_hash@));
            }
            assert(self.sync_status@[i as int] == claim_applied(s0, max as nat).sync_status[i as int]);
            i = i + 1;
        }
        assert(self@.sync_status =~= claim_applied(s0, max as nat).sync_status);
        proof {
            assert forall|a: int, b: int| 0 <= a < b < self@.sync_status.len() implies
                sync_key()(#[trigger] self@.sync_status[a]) != sync_key()(#[trigger] self@.sync_status[b]) by {
                assert(sync_key()(rows0[a]) != sync_key()(rows0[b]));
            }
        }
        out
    }

    /// Writes the log rows read for claimed blocks; a row whose key is
    /// already present is left as it is.
    pub fn insert_logs(&mut self, logs: Vec<Log>)
        requires
            old(self).wf(),
        ensures
            final(self).wf(),
            final(self)@ == logs_applied(old(self)@, logs@),
    {
        let ghost s0 = self@;
        let ghost all = logs@;
        let mut pending = logs;
        let total = pending.len();
        let mut reversed: Vec<Log> = Vec::new();
        while pending.len() > 0
            invariant
                all.len() == total,
                pending@ == all.subrange(0, pending@.len() as int),
                reversed@.len() + pending@.len() == total,
                forall|j: int| 0 <= j < reversed@.len() ==> #[trigger] reversed@[j] == all[all.len() - 1 - j],
            decreases pending@.len(),
        {
            let log = pending.pop().unwrap();
            reversed.push(log);
        }
        let mut n: usize = 0;
        while reversed.len() > 0
            invariant
                0 <= n <= all.len(),
                all.len() == total,
                reversed@.len() == all.len() - n,
                forall|j: int| 0 <= j < reversed@.len() ==> #[trigger] reversed@[j] == all[all.len() - 1 - j],
                self.wf(),
                self@ == logs_applied(s0, all.subrange(0, n as int)),
            decreases reversed@.len(),
        {
            let log = reversed.pop().unwrap();
            proof {
                assert(log == all[n as int]);
                assert(all.subrange(0, n + 1).drop_last() == all.subrange(0, n as int));
                assert(all.subrange(0, n + 1).last() == log);
                lemma_insert_one(self.logs@, log, log_key());
            }
            if !find_log(&self.logs, &log) {
                self.logs.push(log);
            }
            n = n + 1;
        }
        assert(all.subrange(0, all.len() as int) == all);
    }
}

} // verus!
