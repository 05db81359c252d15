use log_indexer::hash::H256;
use log_indexer::xcm::{
    AutoEthereumXcmFee, EthereumXcmFee, EthereumXcmTransaction, EthereumXcmTransactionV1,
    ManualEthereumXcmFee, TransactionAction, TransactionV2, U256, XcmToEthereum, rs_id,
};

fn value(v: U256) -> u128 {
    assert_eq!(v.0[2], 0);
    assert_eq!(v.0[3], 0);
    (v.0[0] as u128) | ((v.0[1] as u128) << 64)
}

fn xcm_transaction(fee: AutoEthereumXcmFee) -> EthereumXcmTransactionV1 {
    EthereumXcmTransactionV1 {
        gas_limit: U256::from_u64(1),
        fee_payment: EthereumXcmFee::Auto(fee),
        action: TransactionAction::Create,
        value: U256::from_u64(0),
        input: vec![1u8],
        access_list: None,
    }
}

fn expect_eip1559(tx: Option<TransactionV2>, max_fee: u128, max_priority_fee: u128) {
    match tx {
        Some(TransactionV2::EIP1559(t)) => {
            assert_eq!(t.chain_id, 0);
            assert_eq!(value(t.nonce), 0);
            assert_eq!(value(t.max_fee_per_gas), max_fee);
            assert_eq!(value(t.max_priority_fee_per_gas), max_priority_fee);
            assert_eq!(value(t.gas_limit), 1);
            assert!(matches!(t.action, TransactionAction::Create));
            assert_eq!(value(t.value), 0);
            assert_eq!(t.input, vec![1u8]);
            assert!(t.access_list.is_empty());
            assert!(t.odd_y_parity);
            let mut one = [0u8; 32];
            one[31] = 1;
            assert_eq!(t.r, H256(one));
            assert_eq!(t.s, H256(one));
        }
        _ => panic!("expected an EIP-1559 transaction"),
    }
}

#[test]
fn test_into_ethereum_tx_with_low_fee() {
    let xcm_transaction = xcm_transaction(AutoEthereumXcmFee::Low);
    let nonce = U256::from_u64(0);
    let base_fee = U256::from_u64(1);
    expect_eip1559(xcm_transaction.into_transaction_v2(base_fee, nonce), 1, 0);
}

#[test]
fn test_into_ethereum_tx_with_medium_fee() {
    let xcm_transaction = xcm_transaction(AutoEthereumXcmFee::Medium);
    let nonce = U256::from_u64(0);
    let base_fee = U256::from_u64(1);
    expect_eip1559(xcm_transaction.into_transaction_v2(base_fee, nonce), 2, 1);
}

#[test]
fn test_into_ethereum_tx_with_high_fee() {
    let xcm_transaction = xcm_transaction(AutoEthereumXcmFee::High);
    let nonce = U256::from_u64(0);
    let base_fee = U256::from_u64(1);
    expect_eip1559(xcm_transaction.into_transaction_v2(base_fee, nonce), 3, 2);
}

#[test]
fn high_fee_scales_a_large_base_fee() {
    let x = EthereumXcmTransaction::V1(xcm_transaction(AutoEthereumXcmFee::High));
    expect_eip1559(x.into_transaction_v2(U256::from_u64(u64::MAX), U256::from_u64(0)), 3 * (u64::MAX as u128), 2 * (u64::MAX as u128));
}

#[test]
fn high_fee_saturates() {
    let x = xcm_transaction(AutoEthereumXcmFee::High);
    let max = U256([u64::MAX; 4]);
    match x.into_transaction_v2(max, U256::from_u64(0)) {
        Some(TransactionV2::EIP1559(t)) => {
            assert_eq!(t.max_fee_per_gas.0, [u64::MAX; 4]);
            assert_eq!(t.max_priority_fee_per_gas.0, [u64::MAX; 4]);
        }
        _ => panic!("expected an EIP-1559 transaction"),
    }
}

#[test]
fn manual_gas_price_gives_legacy_or_eip2930() {
    let mut x = xcm_transaction(AutoEthereumXcmFee::Low);
    x.fee_payment = EthereumXcmFee::Manual(ManualEthereumXcmFee {
        gas_price: Some(U256::from_u64(7)),
        max_fee_per_gas: None,
        max_priority_fee_per_gas: None,
    });
    match x.into_transaction_v2(U256::from_u64(1), U256::from_u64(5)) {
        Some(TransactionV2::Legacy(t)) => {
            assert_eq!(value(t.gas_price), 7);
            assert_eq!(value(t.nonce), 5);
            assert_eq!(t.signature.v, 42);
            assert_eq!(t.signature.r, rs_id());
        }
        _ => panic!("expected a legacy transaction"),
    }
    x.access_list = Some(vec![(log_indexer::hash::H160::repeat_byte(9), vec![H256::repeat_byte(3)])]);
    match x.into_transaction_v2(U256::from_u64(1), U256::from_u64(5)) {
        Some(TransactionV2::EIP2930(t)) => {
            assert_eq!(value(t.gas_price), 7);
            assert_eq!(t.access_list.len(), 1);
            assert_eq!(t.access_list[0].storage_keys, vec![H256::repeat_byte(3)]);
        }
        _ => panic!("expected an EIP-2930 transaction"),
    }
}

#[test]
fn manual_gas_price_with_max_fee_gives_nothing() {
    let mut x = xcm_transaction(AutoEthereumXcmFee::Low);
    x.fee_payment = EthereumXcmFee::Manual(ManualEthereumXcmFee {
        gas_price: Some(U256::from_u64(7)),
        max_fee_per_gas: Some(U256::from_u64(8)),
        max_priority_fee_per_gas: None,
    });
    assert!(x.into_transaction_v2(U256::from_u64(1), U256::from_u64(0)).is_none());
}
