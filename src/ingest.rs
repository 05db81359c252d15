//! Turning what the chain reports about blocks into rows of the index: block
//! metadata from headers, log rows from receipts, and result rows from what
//! the store hands back.
use vstd::prelude::*;
use crate::hash::{H160, H256};
use crate::query::FilterError;
use crate::schema::{EthereumStorageSchema, schema_decoding};
use crate::store::{BlockMetadata, FilteredLog, IndexStore, Log, PostHashes, metadata_applied};

verus! {

/// What looking for the Ethereum post-hashes log in a block's digest found.
pub enum FindLogOutcome {
    Found(PostHashes),
    NotFound,
    MultipleLogs,
}

/// What the chain reports about a block whose header it has.
pub struct HeaderObservation {
    pub number: u64,
    pub post_log: FindLogOutcome,
    /// The hash of the canonical block at `number`, if the chain knows one.
    pub canonical_hash: Option<H256>,
    pub schema: EthereumStorageSchema,
}

/// What the chain reports about one block of a batch.
pub struct BlockObservation {
    pub hash: H256,
    pub header: Option<HeaderObservation>,
}

/// Why a batch of block metadata could not be prepared.
#[derive(Clone, Copy, Debug)]
pub enum MetadataError {
    /// The digest of this block holds more than one post-hashes log.
    MultipleLogs(H256),
}

/// A block number as the index stores it: saturated to 32 bits.
pub open spec fn saturated_number(n: u64) -> u32 {
    if n > u32::MAX as u64 {
        u32::MAX
    } else {
        n as u32
    }
}

/// Whether the observation of a block reports several post-hashes logs.
pub open spec fn has_multiple_logs(o: BlockObservation) -> bool {
    o.header is Some && o.header->Some_0.post_log is MultipleLogs
}

/// The metadata that an observation yields: none for a block without a
/// header or without a post-hashes log.
pub open spec fn metadata_of(o: BlockObservation) -> Option<BlockMetadata> {
    match o.header {
        Some(h) => match h.post_log {
            FindLogOutcome::Found(post_hashes) => Some(BlockMetadata {
                substrate_block_hash: o.hash,
                block_number: saturated_number(h.number),
                post_hashes,
                schema: h.schema,
                is_canon: h.canonical_hash is Some && h.canonical_hash->Some_0@ == o.hash@,
            }),
            _ => None,
        },
        None => None,
    }
}

/// The metadata of the first `n` observations, in order.
pub open spec fn metadata_list(obs: Seq<BlockObservation>, n: int) -> Seq<BlockMetadata>
    decreases n,
{
    if n <= 0 {
        Seq::empty()
    } else {
        match metadata_of(obs[n - 1]) {
            Some(m) => metadata_list(obs, n - 1).push(m),
            None => metadata_list(obs, n - 1),
        }
    }
}

/// Prepares the metadata of a batch of blocks. Blocks without a header or
/// without a post-hashes log are skipped; a block whose digest holds several
/// such logs fails the whole batch. A block is canonical when the chain's
/// canonical hash at its number is its own.
pub fn collect_block_metadata(observations: Vec<BlockObservation>) -> (r: Result<Vec<BlockMetadata>, MetadataError>)
    ensures
        r is Err <==> exists|i: int| 0 <= i < observations@.len() && #[trigger] has_multiple_logs(observations@[i]),
        r is Err ==> exists|i: int| 0 <= i < observations@.len() && #[trigger] has_multiple_logs(observations@[i])
            && r->Err_0 == MetadataError::MultipleLogs(observations@[i].hash)
            && forall|j: int| 0 <= j < i ==> !has_multiple_logs(#[trigger] observations@[j]),
        r is Ok ==> r->Ok_0@ == metadata_list(observations@, observations@.len() as int),
{
    let ghost all = observations@;
    let mut rest = observations;
    let total = rest.len();
    let mut out: Vec<BlockMetadata> = Vec::new();
    let mut n: usize = 0;
    while rest.len() > 0
        invariant
            0 <= n <= all.len(),
            all == observations@,
            all.len() == total,
            rest@ == all.subrange(n as int, all.len() as int),
            out@ == metadata_list(all, n as int),
            forall|j: int| 0 <= j < n ==> !has_multiple_logs(#[trigger] all[j]),
        decreases rest@.len(),
    {
        let o = rest.remove(0);
        assert(o == all[n as int]);
        let hash = o.hash;
        match o.header {
            Some(h) => {
                let number = h.number;
                let canonical_hash = h.canonical_hash;
                let schema = h.schema;
                match h.post_log {
                    FindLogOutcome::Found(post_hashes) => {
                        let block_number: u32 = if number > u32::MAX as u64 { u32::MAX } else { number as u32 };
                        let is_canon = match canonical_hash {
                            Some(c) => c.equals(&hash),
                            None => false,
                        };
                        out.push(BlockMetadata { substrate_block_hash: hash, block_number, post_hashes, schema, is_canon });
                    },
                    FindLogOutcome::NotFound => {},
                    FindLogOutcome::MultipleLogs => {
                        assert(has_multiple_logs(all[n as int]));
                        assert(MetadataError::MultipleLogs(hash) == MetadataError::MultipleLogs(all[n as int].hash));
                        return Err(MetadataError::MultipleLogs(hash));
                    },
                }
            },
            None => {},
        }
        n = n + 1;
    }
    proof {
        if exists|i: int| 0 <= i < all.len() && #[trigger] has_multiple_logs(all[i]) {
            let i = choose|i: int| 0 <= i < all.len() && #[trigger] has_multiple_logs(all[i]);
            assert(!has_multiple_logs(all[i]));
        }
    }
    Ok(out)
}

/// What the chain reports about its genesis block.
pub struct GenesisObservation {
    pub substrate_genesis_hash: H256,
    /// Whether the chain has the genesis header.
    pub header_present: bool,
    /// The Ethereum genesis block hash and the storage schema, when the
    /// runtime exposes the EVM API from genesis.
    pub ethereum_genesis: Option<(H256, EthereumStorageSchema)>,
}

/// The native hashes of a batch of observations, in order.
pub open spec fn observed_hashes(obs: Seq<BlockObservation>) -> Seq<H256> {
    obs.map_values(|o: BlockObservation| o.hash)
}

impl IndexStore {
    /// Ingests a batch of observed blocks as one write: the metadata of every
    /// block that has a post-hashes log, and a queue row for every block of
    /// the batch. When a block reports several post-hashes logs nothing at all
    /// is written.
    pub fn insert_observed_blocks(&mut self, observations: Vec<BlockObservation>) -> (r: Result<(), MetadataError>)
        requires
            old(self).wf(),
        ensures
            final(self).wf(),
            r is Err <==> exists|i: int| 0 <= i < observations@.len() && #[trigger] has_multiple_logs(observations@[i]),
            r is Err ==> final(self)@ == old(self)@,
            r is Ok ==> final(self)@ == metadata_applied(
                old(self)@,
                metadata_list(observations@, observations@.len() as int),
                observed_hashes(observations@),
            ),
    {
        let mut hashes: Vec<H256> = Vec::new();
        let mut i: usize = 0;
        while i < observations.len()
            invariant
                0 <= i <= observations@.len(),
                hashes@ == observed_hashes(observations@.subrange(0, i as int)),
            decreases observations@.len() - i,
        {
            hashes.push(observations[i].hash);
            assert(observed_hashes(observations@.subrange(0, i + 1)) =~= observed_hashes(observations@.subrange(0, i as int)).push(observations@[i as int].hash));
            i = i + 1;
        }
        assert(observations@.subrange(0, observations@.len() as int) == observations@);
        match collect_block_metadata(observations) {
            Ok(metadata) => {
                self.insert_block_metadata(&metadata, &hashes);
                Ok(())
            },
            Err(e) => Err(e),
        }
    }

    /// Records the genesis block when the chain has its header and the
    /// runtime exposes the EVM API from genesis, and then returns the genesis
    /// hash. Otherwise nothing is written and the result is `None`.
    pub fn insert_genesis_block_metadata(&mut self, genesis: &GenesisObservation) -> (r: Option<H256>)
        requires
            old(self).wf(),
        ensures
            final(self).wf(),
            !genesis_indexed(*genesis) ==> r is None && final(self)@ == old(self)@,
            genesis_indexed(*genesis) ==> r == Some(genesis.substrate_genesis_hash) && exists|m: BlockMetadata|
                #[trigger] final(self)@ == metadata_applied(old(self)@, seq![m], Seq::empty())
                && is_genesis_metadata(*genesis, m),
    {
        match genesis_block(genesis) {
            Some(m) => {
                let batch = vec![m];
                let no_hashes: Vec<H256> = Vec::new();
                self.insert_block_metadata(&batch, &no_hashes);
                assert(batch@ == seq![batch@[0]]);
                Some(genesis.substrate_genesis_hash)
            },
            None => None,
        }
    }
}

/// Whether the genesis block is indexed: the chain has its header and the
/// runtime exposes the EVM API from genesis.
pub open spec fn genesis_indexed(g: GenesisObservation) -> bool {
    g.header_present && g.ethereum_genesis is Some
}

/// Whether `m` is the metadata of the genesis block: number 0, canonical,
/// the Ethereum genesis hash, no transactions.
pub open spec fn is_genesis_metadata(g: GenesisObservation, m: BlockMetadata) -> bool {
    &&& m.substrate_block_hash == g.substrate_genesis_hash
    &&& m.block_number == 0
    &&& m.post_hashes.block_hash == g.ethereum_genesis->Some_0.0
    &&& m.post_hashes.transaction_hashes@.len() == 0
    &&& m.schema == g.ethereum_genesis->Some_0.1
    &&& m.is_canon
}

/// The block row to write for the genesis block, if it is indexed at all.
pub fn genesis_block(genesis: &GenesisObservation) -> (r: Option<BlockMetadata>)
    ensures
        r is Some <==> genesis_indexed(*genesis),
        r is Some ==> is_genesis_metadata(*genesis, r->Some_0),
{
    if !genesis.header_present {
        return None;
    }
    match &genesis.ethereum_genesis {
        Some((ethereum_hash, schema)) => Some(BlockMetadata {
            substrate_block_hash: genesis.substrate_genesis_hash,
            block_number: 0,
            post_hashes: PostHashes { block_hash: *ethereum_hash, transaction_hashes: Vec::new() },
            schema: *schema,
            is_canon: true,
        }),
        None => None,
    }
}

/// A log as a receipt reports it.
pub struct EvmLog {
    pub address: H160,
    pub topics: Vec<H256>,
}

/// The part of a receipt that the index reads.
pub struct ReceiptData {
    pub logs: Vec<EvmLog>,
}

/// A transaction receipt, of any of the three envelope types.
pub enum Receipt {
    Legacy(ReceiptData),
    EIP2930(ReceiptData),
    EIP1559(ReceiptData),
}

pub open spec fn receipt_logs_spec(r: Receipt) -> Seq<EvmLog> {
    match r {
        Receipt::Legacy(d) => d.logs@,
        Receipt::EIP2930(d) => d.logs@,
        Receipt::EIP1559(d) => d.logs@,
    }
}

/// The logs of a receipt, whatever its type.
pub fn receipt_logs(r: &Receipt) -> (logs: &Vec<EvmLog>)
    ensures
        logs@ == receipt_logs_spec(*r),
{
    match r {
        Receipt::Legacy(d) => &d.logs,
        Receipt::EIP2930(d) => &d.logs,
        Receipt::EIP1559(d) => &d.logs,
    }
}

/// The stored form of topic slot `i`: the topic, or the zero hash when the
/// log has fewer topics.
pub open spec fn topic_or_zero(topics: Seq<H256>, i: int) -> Seq<u8> {
    if i < topics.len() {
        topics[i]@
    } else {
        Seq::new(32, |k: int| 0u8)
    }
}

/// Whether `row` is the stored form of log `log_index` of transaction
/// `transaction_index` in the block with hash `hash`.
pub open spec fn is_log_row(row: Log, hash: H256, transaction_index: int, log_index: int, log: EvmLog) -> bool {
    &&& row.address@ == log.address@
    &&& row.topic_1@ == topic_or_zero(log.topics@, 0)
    &&& row.topic_2@ == topic_or_zero(log.topics@, 1)
    &&& row.topic_3@ == topic_or_zero(log.topics@, 2)
    &&& row.topic_4@ == topic_or_zero(log.topics@, 3)
    &&& row.log_index == log_index as i32
    &&& row.transaction_index == transaction_index as i32
    &&& row.substrate_block_hash@ == hash@
}

/// The (transaction, log) positions of every log of the first `n` receipts, in order.
pub open spec fn log_positions(receipts: Seq<Receipt>, n: int) -> Seq<(int, int)>
    decreases n,
{
    if n <= 0 {
        Seq::empty()
    } else {
        log_positions(receipts, n - 1) + Seq::new(receipt_logs_spec(receipts[n - 1]).len(), |k: int| (n - 1, k))
    }
}

fn topic_bytes(topics: &Vec<H256>, i: usize) -> (r: Vec<u8>)
    ensures
        r@ == topic_or_zero(topics@, i as int),
{
    if i < topics.len() {
        topics[i].to_vec()
    } else {
        let r = H256::zero().to_vec();
        assert(r@ =~= Seq::new(32, |k: int| 0u8));
        r
    }
}

/// The log rows of a block, from its receipts: one row per log, receipts in
/// order and logs in order within each, with absent topics padded by the
/// zero hash.
pub fn block_logs(substrate_block_hash: &H256, receipts: &Vec<Receipt>) -> (r: Vec<Log>)
    ensures
        r@.len() == log_positions(receipts@, receipts@.len() as int).len(),
        forall|k: int| 0 <= k < r@.len() ==> {
            let (t, l) = #[trigger] log_positions(receipts@, receipts@.len() as int)[k];
            is_log_row(r@[k], *substrate_block_hash, t, l, receipt_logs_spec(receipts@[t])[l])
        },
{
    let mut out: Vec<Log> = Vec::new();
    let mut t: usize = 0;
    while t < receipts.len()
        invariant
            0 <= t <= receipts@.len(),
            out@.len() == log_positions(receipts@, t as int).len(),
            forall|k: int| 0 <= k < out@.len() ==> {
                let (tt, l) = #[trigger] log_positions(receipts@, t as int)[k];
                is_log_row(out@[k], *substrate_block_hash, tt, l, receipt_logs_spec(receipts@[tt])[l])
            },
        decreases receipts@.len() - t,
    {
        let logs = receipt_logs(&receipts[t]);
        let ghost base = out@.len();
        let ghost prev = log_positions(receipts@, t as int);
        let mut l: usize = 0;
        while l < logs.len()
            invariant
                0 <= l <= logs@.len(),
                t < receipts@.len(),
                logs@ == receipt_logs_spec(receipts@[t as int]),
                prev == log_positions(receipts@, t as int),
                base == prev.len(),
                out@.len() == base + l,
                forall|k: int| 0 <= k < base ==> {
                    let (tt, ll) = #[trigger] prev[k];
                    is_log_row(out@[k], *substrate_block_hash, tt, ll, receipt_logs_spec(receipts@[tt])[ll])
                },
                forall|k: int| 0 <= k < l ==> is_log_row(#[trigger] out@[base + k], *substrate_block_hash, t as int, k, logs@[k]),
            decreases logs@.len() - l,
        {
            let log = &logs[l];
            #[verifier::truncate]
            let log_index = l as i32;
            #[verifier::truncate]
            let transaction_index = t as i32;
            let row = Log {
                address: log.address.to_vec(),
                topic_1: topic_bytes(&log.topics, 0),
                topic_2: topic_bytes(&log.topics, 1),
                topic_3: topic_bytes(&log.topics, 2),
                topic_4: topic_bytes(&log.topics, 3),
                log_index,
                transaction_index,
                substrate_block_hash: substrate_block_hash.to_vec(),
            };
            let ghost before = out@;
            out.push(row);
            assert forall|k: int| 0 <= k < l + 1 implies is_log_row(#[trigger] out@[base + k], *substrate_block_hash, t as int, k, logs@[k]) by {
                if k < l {
                    assert(out@[base + k] == before[base + k]);
                }
            }
            assert forall|k: int| 0 <= k < base implies {
                let (tt, ll) = #[trigger] prev[k];
                is_log_row(out@[k], *substrate_block_hash, tt, ll, receipt_logs_spec(receipts@[tt])[ll])
            } by {
                assert(out@[k] == before[k]);
            }
            l = l + 1;
        }
        proof {
            let next = log_positions(receipts@, t + 1);
            assert(next == prev + Seq::new(logs@.len(), |k: int| (t as int, k)));
            assert forall|k: int| 0 <= k < out@.len() implies {
                let (tt, ll) = #[trigger] next[k];
                is_log_row(out@[k], *substrate_block_hash, tt, ll, receipt_logs_spec(receipts@[tt])[ll])
            } by {
                if k < base {
                    assert(next[k] == prev[k]);
                } else {
                    assert(next[k] == (t as int, k - base));
                    assert(is_log_row(out@[base + (k - base)], *substrate_block_hash, t as int, k - base, logs@[k - base]));
                }
            }
        }
        t = t + 1;
    }
    out
}

/// A result row as the store returns it, before decoding.
pub struct RawLogRow {
    pub substrate_block_hash: Vec<u8>,
    pub ethereum_block_hash: Vec<u8>,
    pub block_number: i64,
    pub ethereum_storage_schema: Vec<u8>,
    pub transaction_index: i64,
    pub log_index: i64,
}

/// Whether a raw result row decodes: both hashes 32 bytes, a known schema.
pub open spec fn raw_row_decodes(row: RawLogRow) -> bool {
    &&& row.substrate_block_hash@.len() == 32
    &&& row.ethereum_block_hash@.len() == 32
    &&& schema_decoding(row.ethereum_storage_schema@) is Some
}

/// Whether `f` is the decoded form of `row`.
pub open spec fn decodes_to(row: RawLogRow, f: FilteredLog) -> bool {
    &&& f.substrate_block_hash@ == row.substrate_block_hash@
    &&& f.ethereum_block_hash@ == row.ethereum_block_hash@
    &&& f.block_number == row.block_number as u32
    &&& f.ethereum_storage_schema == schema_decoding(row.ethereum_storage_schema@)->Some_0
    &&& f.transaction_index == row.transaction_index as u32
    &&& f.log_index == row.log_index as u32
}

/// Decodes one result row of the filter statement.
pub fn decode_filtered_log(row: &RawLogRow) -> (r: Result<FilteredLog, FilterError>)
    ensures
        r is Ok <==> raw_row_decodes(*row),
        r is Ok ==> decodes_to(*row, r->Ok_0),
        r is Err ==> r->Err_0 == FilterError::UndecodableRow,
{
    let substrate_block_hash = match H256::from_slice(row.substrate_block_hash.as_slice()) {
        Some(h) => h,
        None => return Err(FilterError::UndecodableRow),
    };
    let ethereum_block_hash = match H256::from_slice(row.ethereum_block_hash.as_slice()) {
        Some(h) => h,
        None => return Err(FilterError::UndecodableRow),
    };
    let ethereum_storage_schema = match EthereumStorageSchema::decode(row.ethereum_storage_schema.as_slice()) {
        Some(s) => s,
        None => return Err(FilterError::UndecodableRow),
    };
    #[verifier::truncate]
    let block_number = row.block_number as u32;
    #[verifier::truncate]
    let transaction_index = row.transaction_index as u32;
    #[verifier::truncate]
    let log_index = row.log_index as u32;
    Ok(FilteredLog {
        substrate_block_hash,
        ethereum_block_hash,
        block_number,
        ethereum_storage_schema,
        transaction_index,
        log_index,
    })
}

/// Decodes the result rows of the filter statement, in order; the first row
/// that does not decode fails the whole result.
pub fn decode_filtered_logs(rows: &Vec<RawLogRow>) -> (r: Result<Vec<FilteredLog>, FilterError>)
    ensures
        r is Ok <==> forall|k: int| 0 <= k < rows@.len() ==> raw_row_decodes(#[trigger] rows@[k]),
        r is Ok ==> r->Ok_0@.len() == rows@.len()
            && forall|k: int| 0 <= k < rows@.len() ==> decodes_to(rows@[k], #[trigger] r->Ok_0@[k]),
        r is Err ==> r->Err_0 == FilterError::UndecodableRow,
{
    let mut out: Vec<FilteredLog> = Vec::new();
    let mut i: usize = 0;
    while i < rows.len()
        invariant
            0 <= i <= rows@.len(),
            out@.len() == i,
            forall|k: int| 0 <= k < i ==> raw_row_decodes(#[trigger] rows@[k]),
            forall|k: int| 0 <= k < i ==> decodes_to(rows@[k], #[trigger] out@[k]),
        decreases rows@.len() - i,
    {
        match decode_filtered_log(&rows[i]) {
            Ok(f) => out.push(f),
            Err(e) => return Err(e),
        }
        i = i + 1;
    }
    Ok(out)
}

} // verus!
