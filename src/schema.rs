//! The on-chain EVM storage schema version, and its one-byte encoding.
use vstd::prelude::*;

verus! {

/// The version of the EVM storage layout that a block was produced under; it
/// selects how the block's receipts are read.
#[derive(Clone, Copy, Debug, PartialEq, Eq, Structural, Hash)]
pub enum EthereumStorageSchema {
    Undefined,
    V1,
    V2,
    V3,
}

/// The index that the encoding of a schema version starts with.
pub open spec fn schema_tag(s: EthereumStorageSchema) -> u8 {
    match s {
        EthereumStorageSchema::Undefined => 0,
        EthereumStorageSchema::V1 => 1,
        EthereumStorageSchema::V2 => 2,
        EthereumStorageSchema::V3 => 3,
    }
}

/// The schema version that encoded bytes stand for: the first byte is the
/// variant's index, and what follows it is not read.
pub open spec fn schema_decoding(bytes: Seq<u8>) -> Option<EthereumStorageSchema> {
    if bytes.len() == 0 {
        None
    } else if bytes[0] == 0 {
        Some(EthereumStorageSchema::Undefined)
    } else if bytes[0] == 1 {
        Some(EthereumStorageSchema::V1)
    } else if bytes[0] == 2 {
        Some(EthereumStorageSchema::V2)
    } else if bytes[0] == 3 {
        Some(EthereumStorageSchema::V3)
    } else {
        None
    }
}

impl EthereumStorageSchema {
    /// The stored form of the schema version: its variant index, one byte.
    pub fn encode(&self) -> (r: Vec<u8>)
        ensures
            r@ == seq![schema_tag(*self)],
            schema_decoding(r@) == Some(*self),
    {
        let tag: u8 = match self {
            EthereumStorageSchema::Undefined => 0,
            EthereumStorageSchema::V1 => 1,
            EthereumStorageSchema::V2 => 2,
            EthereumStorageSchema::V3 => 3,
        };
        let mut r: Vec<u8> = Vec::new();
        r.push(tag);
        r
    }

    /// Reads a stored schema version.
    pub fn decode(bytes: &[u8]) -> (r: Option<EthereumStorageSchema>)
        ensures
            r == schema_decoding(bytes@),
    {
        if bytes.len() == 0 {
            None
        } else if bytes[0] == 0 {
            Some(EthereumStorageSchema::Undefined)
        } else if bytes[0] == 1 {
            Some(EthereumStorageSchema::V1)
        } else if bytes[0] == 2 {
            Some(EthereumStorageSchema::V2)
        } else if bytes[0] == 3 {
            Some(EthereumStorageSchema::V3)
        } else {
            None
        }
    }

    /// The schema version of a block, from the raw value under the schema
    /// storage key: `Undefined` when the value is absent or does not decode.
    pub fn from_storage(value: &Option<Vec<u8>>) -> (r: EthereumStorageSchema)
        ensures
            value is None ==> r == EthereumStorageSchema::Undefined,
            value is Some ==> r == match schema_decoding(value->Some_0@) {
                Some(s) => s,
                None => EthereumStorageSchema::Undefined,
            },
    {
        match value {
            Some(bytes) => match EthereumStorageSchema::decode(bytes.as_slice()) {
                Some(s) => s,
                None => EthereumStorageSchema::Undefined,
            },
            None => EthereumStorageSchema::Undefined,
        }
    }
}

} // verus!
