//! A transaction request as it comes from RPC, and the unsigned transaction
//! message it describes.
use vstd::prelude::*;
use vstd::string::StringExecFns;
use crate::hash::{H160, bytes_equal};
use crate::xcm::{AccessListItem, TransactionAction, U256};

verus! {

/// Transaction request coming from RPC
pub struct TransactionRequest {
    /// Sender
    pub from: Option<H160>,
    /// Recipient
    pub to: Option<H160>,
    /// Gas Price, legacy.
    pub gas_price: Option<U256>,
    /// Max BaseFeePerGas the user is willing to pay.
    pub max_fee_per_gas: Option<U256>,
    /// The miner's tip.
    pub max_priority_fee_per_gas: Option<U256>,
    /// Gas
    pub gas: Option<U256>,
    /// Value of transaction in wei
    pub value: Option<U256>,
    /// Additional data sent with transaction
    pub data: Option<Vec<u8>>,
    /// Input Data
    pub input: Option<Vec<u8>>,
    /// Transaction's nonce
    pub nonce: Option<U256>,
    /// Pre-pay to warm storage access.
    pub access_list: Option<Vec<AccessListItem>>,
    /// EIP-2718 type
    pub transaction_type: Option<U256>,
}

pub struct LegacyTransactionMessage {
    pub nonce: U256,
    pub gas_price: U256,
    pub gas_limit: U256,
    pub action: TransactionAction,
    pub value: U256,
    pub input: Vec<u8>,
    pub chain_id: Option<u64>,
}

pub struct EIP2930TransactionMessage {
    pub chain_id: u64,
    pub nonce: U256,
    pub gas_price: U256,
    pub gas_limit: U256,
    pub action: TransactionAction,
    pub value: U256,
    pub input: Vec<u8>,
    pub access_list: Vec<AccessListItem>,
}

pub struct EIP1559TransactionMessage {
    pub chain_id: u64,
    pub nonce: U256,
    pub max_priority_fee_per_gas: U256,
    pub max_fee_per_gas: U256,
    pub gas_limit: U256,
    pub action: TransactionAction,
    pub value: U256,
    pub input: Vec<u8>,
    pub access_list: Vec<AccessListItem>,
}

/// An unsigned transaction, of one of the three envelope types.
pub enum TransactionMessage {
    Legacy(LegacyTransactionMessage),
    EIP2930(EIP2930TransactionMessage),
    EIP1559(EIP1559TransactionMessage),
}

/// The value of a hexadecimal digit, of either case.
pub open spec fn hex_value(c: u8) -> Option<u8> {
    if 48 <= c <= 57 {
        Some((c - 48) as u8)
    } else if 97 <= c <= 102 {
        Some((c - 87) as u8)
    } else if 65 <= c <= 70 {
        Some((c - 55) as u8)
    } else {
        None
    }
}

/// Whether `s` is `0x` followed by an even number of hexadecimal digits.
pub open spec fn is_hex_bytes(s: Seq<u8>) -> bool {
    &&& s.len() >= 2
    &&& s[0] == 48 && s[1] == 120
    &&& s.len() % 2 == 0
    &&& forall|i: int| 2 <= i < s.len() ==> #[trigger] hex_value(s[i]) is Some
}

/// Byte `k` of the hexadecimal text `s`: two digits, the high one first.
pub open spec fn hex_byte(s: Seq<u8>, k: int) -> int {
    hex_value(s[2 + 2 * k])->Some_0 * 16 + hex_value(s[3 + 2 * k])->Some_0
}

fn hex_digit(c: u8) -> (r: Option<u8>)
    ensures
        r == hex_value(c),
        r is Some ==> r->Some_0 < 16,
{
    if 48 <= c && c <= 57 {
        Some(c - 48)
    } else if 97 <= c && c <= 102 {
        Some(c - 87)
    } else if 65 <= c && c <= 70 {
        Some(c - 55)
    } else {
        None
    }
}

/// Reads call data written as `0x` and an even number of hexadecimal digits.
pub fn parse_hex_bytes(s: &[u8]) -> (r: Option<Vec<u8>>)
    ensures
        r is Some <==> is_hex_bytes(s@),
        r is Some ==> r->Some_0@.len() == (s@.len() - 2) / 2
            && forall|k: int| 0 <= k < r->Some_0@.len() ==> #[trigger] r->Some_0@[k] as int == hex_byte(s@, k),
{
    if s.len() < 2 || s[0] != 48 || s[1] != 120 || s.len() % 2 != 0 {
        return None;
    }
    let mut out: Vec<u8> = Vec::new();
    let mut i: usize = 2;
    while i < s.len()
        invariant
            2 <= i <= s@.len(),
            s@.len() % 2 == 0,
            i % 2 == 0,
            s@[0] == 48 && s@[1] == 120,
            out@.len() == (i - 2) / 2,
            forall|j: int| 2 <= j < i ==> #[trigger] hex_value(s@[j]) is Some,
            forall|k: int| 0 <= k < out@.len() ==> #[trigger] out@[k] as int == hex_byte(s@, k),
        decreases s@.len() - i,
    {
        let hi = match hex_digit(s[i]) {
            Some(v) => v,
            None => return None,
        };
        let lo = match hex_digit(s[i + 1]) {
            Some(v) => v,
            None => {
                assert(!(hex_value(s@[i + 1]) is Some));
                return None;
            },
        };
        out.push(hi * 16 + lo);
        assert(out@[out@.len() - 1] as int == hex_byte(s@, (i - 2) / 2));
        i = i + 2;
    }
    Some(out)
}

/// Why a transaction request is refused.
#[derive(Clone, Copy, Debug, PartialEq, Eq, Structural)]
pub enum RequestError {
    DataInputMismatch,
}

impl RequestError {
    /// The message handed to the RPC layer.
    pub fn message(&self) -> (r: String)
        ensures
            r@ == "data and input must be equal when both are present"@,
    {
        match self {
            RequestError::DataInputMismatch => String::from_str("data and input must be equal when both are present"),
        }
    }
}

/// Reconciles the two names of the call data: both present and different is
/// an error; `input` alone becomes `data`; otherwise both stay as they are.
pub fn reconcile_data_input(data: Option<Vec<u8>>, input: Option<Vec<u8>>)
    -> (r: Result<(Option<Vec<u8>>, Option<Vec<u8>>), RequestError>)
    ensures
        r is Err <==> (data is Some && input is Some && data->Some_0@ != input->Some_0@),
        r is Err ==> r->Err_0 == RequestError::DataInputMismatch,
        r is Ok && data is None && input is Some ==> r->Ok_0.0 is Some && r->Ok_0.0->Some_0@ == input->Some_0@ && r->Ok_0.1 is None,
        r is Ok && !(data is None && input is Some) ==> r->Ok_0.0 == data && r->Ok_0.1 == input,
{
    match (data, input) {
        (Some(d), Some(i)) => {
            if !bytes_equal(d.as_slice(), i.as_slice()) {
                Err(RequestError::DataInputMismatch)
            } else {
                Ok((Some(d), Some(i)))
            }
        },
        (None, Some(i)) => Ok((Some(i), None)),
        (d, i) => Ok((d, i)),
    }
}

pub open spec fn value_or_zero(x: Option<U256>) -> int {
    match x {
        Some(v) => v.value(),
        None => 0,
    }
}

pub open spec fn bytes_or_empty(x: Option<Vec<u8>>) -> Seq<u8> {
    match x {
        Some(v) => v@,
        None => Seq::empty(),
    }
}

pub open spec fn action_of(to: Option<H160>) -> TransactionAction {
    match to {
        Some(a) => TransactionAction::Call(a),
        None => TransactionAction::Create,
    }
}

fn or_zero(x: Option<U256>) -> (r: U256)
    ensures
        r.value() == value_or_zero(x),
{
    match x {
        Some(v) => v,
        None => U256::zero(),
    }
}

fn or_empty(x: Option<Vec<u8>>) -> (r: Vec<u8>)
    ensures
        r@ == bytes_or_empty(x),
{
    match x {
        Some(v) => v,
        None => Vec::new(),
    }
}

fn action(to: Option<H160>) -> (r: TransactionAction)
    ensures
        r == action_of(to),
{
    match to {
        Some(a) => TransactionAction::Call(a),
        None => TransactionAction::Create,
    }
}

impl TransactionRequest {
    /// The unsigned message the request describes, with a zero nonce. A gas
    /// price alone gives a legacy message, or an EIP-2930 one with an access
    /// list; a maximum fee without gas price, or no fee field and no access
    /// list, gives an EIP-1559 message; a gas price with a maximum fee gives
    /// none. Absent amounts are zero, absent data empty, an absent recipient a
    /// contract creation.
    pub fn into_message(self) -> (r: Option<TransactionMessage>)
        ensures
            self.gas_price is Some && self.max_fee_per_gas is Some ==> r is None,
            self.gas_price is Some && self.max_fee_per_gas is None && self.access_list is None ==> r is Some && match r->Some_0 {
                TransactionMessage::Legacy(m) => m.nonce.value() == 0 && m.gas_price.value() == value_or_zero(self.gas_price)
                    && m.gas_limit.value() == value_or_zero(self.gas) && m.value.value() == value_or_zero(self.value)
                    && m.input@ == bytes_or_empty(self.data) && m.action == action_of(self.to) && m.chain_id is None,
                _ => false,
            },
            self.max_fee_per_gas is None && self.access_list is Some ==> r is Some && match r->Some_0 {
                TransactionMessage::EIP2930(m) => m.chain_id == 0 && m.nonce.value() == 0
                    && m.gas_price.value() == value_or_zero(self.gas_price)
                    && m.gas_limit.value() == value_or_zero(self.gas) && m.value.value() == value_or_zero(self.value)
                    && m.input@ == bytes_or_empty(self.data) && m.action == action_of(self.to)
                    && m.access_list@ == self.access_list->Some_0@,
                _ => false,
            },
            self.gas_price is None && (self.max_fee_per_gas is Some || self.access_list is None) ==> r is Some && match r->Some_0 {
                TransactionMessage::EIP1559(m) => m.chain_id == 0 && m.nonce.value() == 0
                    && m.max_fee_per_gas.value() == value_or_zero(self.max_fee_per_gas)
                    && m.max_priority_fee_per_gas.value() == value_or_zero(self.max_priority_fee_per_gas)
                    && m.gas_limit.value() == value_or_zero(self.gas) && m.value.value() == value_or_zero(self.value)
                    && m.input@ == bytes_or_empty(self.data) && m.action == action_of(self.to)
                    && m.access_list@ == (if self.access_list is Some { self.access_list->Some_0@ } else { Seq::empty() }),
                _ => false,
            },
    {
        let legacy = self.gas_price.is_some() && self.max_fee_per_gas.is_none() && self.access_list.is_none();
        let eip2930 = self.max_fee_per_gas.is_none() && self.access_list.is_some();
        let eip1559 = self.gas_price.is_none() && (self.max_fee_per_gas.is_some() || self.access_list.is_none());
        if legacy {
            Some(TransactionMessage::Legacy(LegacyTransactionMessage {
                nonce: U256::zero(),
                gas_price: or_zero(self.gas_price),
                gas_limit: or_zero(self.gas),
                value: or_zero(self.value),
                input: or_empty(self.data),
                action: action(self.to),
                chain_id: None,
            }))
        } else if eip2930 {
            let access_list = match self.access_list {
                Some(l) => l,
                None => Vec::new(),
            };
            Some(TransactionMessage::EIP2930(EIP2930TransactionMessage {
                nonce: U256::zero(),
                gas_price: or_zero(self.gas_price),
                gas_limit: or_zero(self.gas),
                value: or_zero(self.value),
                input: or_empty(self.data),
                action: action(self.to),
                chain_id: 0,
                access_list,
            }))
        } else if eip1559 {
            let access_list = match self.access_list {
                Some(l) => l,
                None => Vec::new(),
            };
            Some(TransactionMessage::EIP1559(EIP1559TransactionMessage {
                nonce: U256::zero(),
                max_fee_per_gas: or_zero(self.max_fee_per_gas),
                max_priority_fee_per_gas: or_zero(self.max_priority_fee_per_gas),
                gas_limit: or_zero(self.gas),
                value: or_zero(self.value),
                input: or_empty(self.data),
                action: action(self.to),
                chain_id: 0,
                access_list,
            }))
        } else {
            None
        }
    }
}

} // verus!
