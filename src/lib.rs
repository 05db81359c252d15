//! A secondary index of EVM logs: the relational model of the index, the
//! write protocol that keeps it consistent under replays and reorgs, and the
//! compiler that turns a log filter into a parameterised SQL statement.
//!
//! - `store`: the index's four relations, its writes (block metadata, reorgs,
//!   the sync queue, log rows) and its reads (filters, hash lookups);
//! - `rows`: insert-or-ignore, the write discipline that makes replays safe;
//! - `query`: topic normalisation and the filter statement;
//! - `ingest`: block metadata from headers, log rows from receipts, result
//!   rows from the store;
//! - `statements`, `config`, `schema`: the fixed statements, connection
//!   settings and the storage-schema tag;
//! - `xcm`, `request`: the transaction payloads of XCM and RPC.
pub mod config;
pub mod hash;
pub mod ingest;
pub mod query;
pub mod request;
pub mod rows;
pub mod schema;
pub mod statements;
pub mod store;
pub mod xcm;
