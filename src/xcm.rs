//! The Ethereum transaction that an XCM `Transact` carries, and how it turns
//! into a signed-looking EVM transaction with a fixed, invalid signature.
use vstd::prelude::*;
use crate::hash::{H160, H256, bytes_to_vec};

verus! {

/// A 256-bit unsigned integer as four 64-bit words, least significant first.
#[derive(Clone, Copy, Debug)]
pub struct U256(pub [u64; 4]);

pub open spec fn word_base() -> int {
    u64::MAX as int + 1
}

/// The largest value a `U256` holds.
pub open spec fn u256_max() -> int {
    word_base() * word_base() * word_base() * word_base() - 1
}

impl U256 {
    /// The number the words stand for.
    pub open spec fn value(self) -> int {
        self.0[0] as int + word_base() * (self.0[1] as int + word_base() * (self.0[2] as int + word_base() * self.0[3] as int))
    }

    /// The value `v`.
    pub fn from_u64(v: u64) -> (r: U256)
        ensures
            r.value() == v as int,
    {
        let r = U256([v, 0, 0, 0]);
        assert(r.0[1] == 0 && r.0[2] == 0 && r.0[3] == 0);
        r
    }

    /// Zero.
    pub fn zero() -> (r: U256)
        ensures
            r.value() == 0,
    {
        U256::from_u64(0)
    }
}

/// Relies on `ethereum_types::U256::saturating_mul` (uint's `saturating_mul`):
/// the product, or the largest value when the product overflows.
#[verifier::external_body]
fn saturating_mul(a: U256, b: U256) -> (r: U256)
    ensures
        r.value() == if a.value() * b.value() > u256_max() { u256_max() } else { a.value() * b.value() },
{
    U256(ethereum_types::U256(a.0).saturating_mul(ethereum_types::U256(b.0)).0)
}

/// Manually sets a gas fee.
#[derive(Clone, Copy, Debug)]
pub struct ManualEthereumXcmFee {
    /// Legacy or Eip-2930
    pub gas_price: Option<U256>,
    /// Eip-1559
    pub max_fee_per_gas: Option<U256>,
    /// Eip-1559
    pub max_priority_fee_per_gas: Option<U256>,
}

/// Automatic gas fee based on the current on-chain values.
/// Will always produce an Eip-1559 transaction.
#[derive(Clone, Copy, Debug, PartialEq, Eq, Structural)]
pub enum AutoEthereumXcmFee {
    /// base_fee_per_gas = BaseFee
    Low,
    /// max_fee_per_gas = 2 * BaseFee, max_priority_fee_per_gas = BaseFee
    Medium,
    /// max_fee_per_gas = 3 * BaseFee, max_priority_fee_per_gas = 2 * BaseFee
    High,
}

/// Xcm transact's Ethereum transaction configurable fee.
#[derive(Clone, Copy, Debug)]
pub enum EthereumXcmFee {
    Manual(ManualEthereumXcmFee),
    Auto(AutoEthereumXcmFee),
}

/// Either a call to an address or a contract creation.
#[derive(Clone, Copy, Debug)]
pub enum TransactionAction {
    Call(H160),
    Create,
}

/// Xcm transact's Ethereum transaction.
pub struct EthereumXcmTransactionV1 {
    /// Gas limit to be consumed by EVM execution.
    pub gas_limit: U256,
    /// Fee configuration of choice.
    pub fee_payment: EthereumXcmFee,
    /// Either a Call (the callee, account or contract address) or Create (currently unsupported).
    pub action: TransactionAction,
    /// Value to be transfered.
    pub value: U256,
    /// Input data for a contract call.
    pub input: Vec<u8>,
    /// Map of addresses to be pre-paid to warm storage.
    pub access_list: Option<Vec<(H160, Vec<H256>)>>,
}

/// Xcm transact's Ethereum transaction, by version.
pub enum EthereumXcmTransaction {
    V1(EthereumXcmTransactionV1),
}

/// An address and the storage keys to pre-pay for it.
pub struct AccessListItem {
    pub address: H160,
    pub storage_keys: Vec<H256>,
}

/// A legacy signature: recovery id `v`, and `r`, `s`.
#[derive(Clone, Copy, Debug)]
pub struct TransactionSignature {
    pub v: u64,
    pub r: H256,
    pub s: H256,
}

pub struct LegacyTransaction {
    pub nonce: U256,
    pub gas_price: U256,
    pub gas_limit: U256,
    pub action: TransactionAction,
    pub value: U256,
    pub input: Vec<u8>,
    pub signature: TransactionSignature,
}

pub struct EIP2930Transaction {
    pub chain_id: u64,
    pub nonce: U256,
    pub gas_price: U256,
    pub gas_limit: U256,
    pub action: TransactionAction,
    pub value: U256,
    pub input: Vec<u8>,
    pub access_list: Vec<AccessListItem>,
    pub odd_y_parity: bool,
    pub r: H256,
    pub s: H256,
}

pub struct EIP1559Transaction {
    pub chain_id: u64,
    pub nonce: U256,
    pub max_priority_fee_per_gas: U256,
    pub max_fee_per_gas: U256,
    pub gas_limit: U256,
    pub action: TransactionAction,
    pub value: U256,
    pub input: Vec<u8>,
    pub access_list: Vec<AccessListItem>,
    pub odd_y_parity: bool,
    pub r: H256,
    pub s: H256,
}

/// An EVM transaction of one of the three envelope types.
pub enum TransactionV2 {
    Legacy(LegacyTransaction),
    EIP2930(EIP2930Transaction),
    EIP1559(EIP1559Transaction),
}

/// The recovery id of the fixed legacy signature.
pub const LEGACY_SIGNATURE_V: u64 = 42;

/// Value for `r` and `s` for the invalid signature included in Xcm transact's Ethereum transaction.
pub fn rs_id() -> (r: H256)
    ensures
        r@ == rs_id_bytes(),
{
    let mut a: [u8; 32] = [0u8; 32];
    a[31] = 1;
    let r = H256(a);
    assert(r@ =~= rs_id_bytes());
    r
}

/// The bytes of `rs_id`: the number one, big-endian.
pub open spec fn rs_id_bytes() -> Seq<u8> {
    Seq::new(32, |i: int| if i == 31 { 1u8 } else { 0u8 })
}

/// The value an optional amount stands for.
pub open spec fn opt_value(x: Option<U256>) -> Option<int> {
    match x {
        Some(v) => Some(v.value()),
        None => None,
    }
}

/// `base_fee` times `k`, saturating.
pub open spec fn scaled_fee(base_fee: U256, k: int) -> int {
    if base_fee.value() * k > u256_max() { u256_max() } else { base_fee.value() * k }
}

/// The gas price, maximum fee and maximum priority fee that a fee
/// configuration asks for, as values.
pub open spec fn fee_values(fee: EthereumXcmFee, base_fee: U256) -> (Option<int>, Option<int>, Option<int>) {
    match fee {
        EthereumXcmFee::Manual(m) => (opt_value(m.gas_price), opt_value(m.max_fee_per_gas), opt_value(m.max_priority_fee_per_gas)),
        EthereumXcmFee::Auto(AutoEthereumXcmFee::Low) => (None, Some(base_fee.value()), None),
        EthereumXcmFee::Auto(AutoEthereumXcmFee::Medium) => (None, Some(scaled_fee(base_fee, 2)), Some(base_fee.value())),
        EthereumXcmFee::Auto(AutoEthereumXcmFee::High) => (None, Some(scaled_fee(base_fee, 3)), Some(scaled_fee(base_fee, 2))),
    }
}

/// Resolves a fee configuration against the current base fee.
pub fn resolve_fee(fee: &EthereumXcmFee, base_fee: U256) -> (r: (Option<U256>, Option<U256>, Option<U256>))
    ensures
        (opt_value(r.0), opt_value(r.1), opt_value(r.2)) == fee_values(*fee, base_fee),
{
    match fee {
        EthereumXcmFee::Manual(m) => (m.gas_price, m.max_fee_per_gas, m.max_priority_fee_per_gas),
        EthereumXcmFee::Auto(AutoEthereumXcmFee::Low) => (None, Some(base_fee), None),
        EthereumXcmFee::Auto(AutoEthereumXcmFee::Medium) => {
            let max_fee = saturating_mul(base_fee, U256::from_u64(2));
            (None, Some(max_fee), Some(base_fee))
        },
        EthereumXcmFee::Auto(AutoEthereumXcmFee::High) => {
            let max_fee = saturating_mul(base_fee, U256::from_u64(3));
            let max_priority_fee = saturating_mul(base_fee, U256::from_u64(2));
            (None, Some(max_fee), Some(max_priority_fee))
        },
    }
}

/// Whether `items` is the access list that `pairs` describes.
pub open spec fn is_access_list(items: Seq<AccessListItem>, pairs: Seq<(H160, Vec<H256>)>) -> bool {
    &&& items.len() == pairs.len()
    &&& forall|i: int| 0 <= i < items.len() ==> (#[trigger] items[i]).address == pairs[i].0
        && items[i].storage_keys@ == pairs[i].1@
}

fn copy_hashes(v: &Vec<H256>) -> (r: Vec<H256>)
    ensures
        r@ == v@,
{
    let mut out: Vec<H256> = Vec::new();
    let mut i: usize = 0;
    while i < v.len()
        invariant
            0 <= i <= v@.len(),
            out@ == v@.subrange(0, i as int),
        decreases v@.len() - i,
    {
        out.push(v[i]);
        assert(v@.subrange(0, i + 1) == v@.subrange(0, i as int).push(v@[i as int]));
        i = i + 1;
    }
    assert(v@.subrange(0, v@.len() as int) == v@);
    out
}

/// The access list of address and storage-key pairs.
pub fn to_access_list(pairs: &Vec<(H160, Vec<H256>)>) -> (r: Vec<AccessListItem>)
    ensures
        is_access_list(r@, pairs@),
{
    let mut out: Vec<AccessListItem> = Vec::new();
    let mut i: usize = 0;
    while i < pairs.len()
        invariant
            0 <= i <= pairs@.len(),
            out@.len() == i,
            forall|k: int| 0 <= k < i ==> (#[trigger] out@[k]).address == pairs@[k].0 && out@[k].storage_keys@ == pairs@[k].1@,
        decreases pairs@.len() - i,
    {
        let item = AccessListItem { address: pairs[i].0, storage_keys: copy_hashes(&pairs[i].1) };
        out.push(item);
        i = i + 1;
    }
    out
}

/// Whether `tx` is what an XCM transaction turns into under the given base
/// fee and nonce: legacy for a gas price alone without access list, EIP-2930
/// for a gas price alone with one, EIP-1559 for a maximum fee without gas
/// price (a missing priority fee being zero); every such transaction carries
/// the fixed invalid signature made of `rs_id`.
pub open spec fn is_transaction_v2(x: EthereumXcmTransactionV1, base_fee: U256, nonce: U256, tx: Option<TransactionV2>) -> bool {
    let (gas_price, max_fee, max_priority_fee) = fee_values(x.fee_payment, base_fee);
    if gas_price is Some && max_fee is None && max_priority_fee is None {
        if x.access_list is Some {
            tx is Some && match tx->Some_0 {
                TransactionV2::EIP2930(t) => t.chain_id == 0 && t.nonce == nonce && t.gas_price.value() == gas_price->Some_0
                    && t.gas_limit == x.gas_limit && t.action == x.action && t.value == x.value && t.input@ == x.input@
                    && is_access_list(t.access_list@, x.access_list->Some_0@) && t.odd_y_parity
                    && t.r@ == rs_id_bytes() && t.s@ == rs_id_bytes(),
                _ => false,
            }
        } else {
            tx is Some && match tx->Some_0 {
                TransactionV2::Legacy(t) => t.nonce == nonce && t.gas_price.value() == gas_price->Some_0
                    && t.gas_limit == x.gas_limit && t.action == x.action && t.value == x.value && t.input@ == x.input@
                    && t.signature.v == LEGACY_SIGNATURE_V && t.signature.r@ == rs_id_bytes() && t.signature.s@ == rs_id_bytes(),
                _ => false,
            }
        }
    } else if gas_price is None && max_fee is Some {
        tx is Some && match tx->Some_0 {
            TransactionV2::EIP1559(t) => t.chain_id == 0 && t.nonce == nonce && t.max_fee_per_gas.value() == max_fee->Some_0
                && t.max_priority_fee_per_gas.value() == (if max_priority_fee is Some { max_priority_fee->Some_0 } else { 0 })
                && t.gas_limit == x.gas_limit && t.action == x.action && t.value == x.value && t.input@ == x.input@
                && (if x.access_list is Some { is_access_list(t.access_list@, x.access_list->Some_0@) } else { t.access_list@.len() == 0 })
                && t.odd_y_parity && t.r@ == rs_id_bytes() && t.s@ == rs_id_bytes(),
            _ => false,
        }
    } else {
        tx is None
    }
}

/// Turning an XCM transaction into the EVM transaction it stands for.
pub trait XcmToEthereum {
    /// Whether `tx` is what the transaction turns into under `base_fee` and `nonce`.
    spec fn is_transaction_v2_of(&self, base_fee: U256, nonce: U256, tx: Option<TransactionV2>) -> bool;

    /// The EVM transaction, or `None` when the fee configuration fits no
    /// transaction type.
    fn into_transaction_v2(&self, base_fee: U256, nonce: U256) -> (r: Option<TransactionV2>)
        ensures
            self.is_transaction_v2_of(base_fee, nonce, r),
    ;
}

impl XcmToEthereum for EthereumXcmTransactionV1 {
    open spec fn is_transaction_v2_of(&self, base_fee: U256, nonce: U256, tx: Option<TransactionV2>) -> bool {
        is_transaction_v2(*self, base_fee, nonce, tx)
    }

    fn into_transaction_v2(&self, base_fee: U256, nonce: U256) -> (r: Option<TransactionV2>) {
        let (gas_price, max_fee, max_priority_fee) = resolve_fee(&self.fee_payment, base_fee);
        match (gas_price, max_fee, max_priority_fee) {
            (Some(gas_price), None, None) => {
                match &self.access_list {
                    Some(access_list) => Some(TransactionV2::EIP2930(EIP2930Transaction {
                        chain_id: 0,
                        nonce,
                        gas_price,
                        gas_limit: self.gas_limit,
                        action: self.action,
                        value: self.value,
                        input: bytes_to_vec(self.input.as_slice()),
                        access_list: to_access_list(access_list),
                        odd_y_parity: true,
                        r: rs_id(),
                        s: rs_id(),
                    })),
                    None => Some(TransactionV2::Legacy(LegacyTransaction {
                        nonce,
                        gas_price,
                        gas_limit: self.gas_limit,
                        action: self.action,
                        value: self.value,
                        input: bytes_to_vec(self.input.as_slice()),
                        signature: TransactionSignature { v: LEGACY_SIGNATURE_V, r: rs_id(), s: rs_id() },
                    })),
                }
            },
            (None, Some(max_fee), _) => {
                let max_priority_fee_per_gas = match max_priority_fee {
                    Some(p) => p,
                    None => U256::zero(),
                };
                let access_list = match &self.access_list {
                    Some(access_list) => to_access_list(access_list),
                    None => Vec::new(),
                };
                Some(TransactionV2::EIP1559(EIP1559Transaction {
                    chain_id: 0,
                    nonce,
                    max_fee_per_gas: max_fee,
                    max_priority_fee_per_gas,
                    gas_limit: self.gas_limit,
                    action: self.action,
                    value: self.value,
                    input: bytes_to_vec(self.input.as_slice()),
                    access_list,
                    odd_y_parity: true,
                    r: rs_id(),
                    s: rs_id(),
                }))
            },
            _ => None,
        }
    }
}

impl XcmToEthereum for EthereumXcmTransaction {
    open spec fn is_transaction_v2_of(&self, base_fee: U256, nonce: U256, tx: Option<TransactionV2>) -> bool {
        match self {
            EthereumXcmTransaction::V1(v1) => is_transaction_v2(*v1, base_fee, nonce, tx),
        }
    }

    fn into_transaction_v2(&self, base_fee: U256, nonce: U256) -> (r: Option<TransactionV2>) {
        match self {
            EthereumXcmTransaction::V1(v1_tx) => v1_tx.into_transaction_v2(base_fee, nonce),
        }
    }
}

} // verus!
