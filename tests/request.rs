use log_indexer::hash::H160;
use log_indexer::request::{reconcile_data_input, RequestError, TransactionMessage, TransactionRequest};
use log_indexer::xcm::{TransactionAction, U256};

fn request() -> TransactionRequest {
    TransactionRequest {
        from: None,
        to: None,
        gas_price: None,
        max_fee_per_gas: None,
        max_priority_fee_per_gas: None,
        gas: None,
        value: None,
        data: None,
        input: None,
        nonce: None,
        access_list: None,
        transaction_type: None,
    }
}

#[test]
fn mismatched_data_and_input_are_refused() {
    let r = reconcile_data_input(Some(vec![0xab, 0xc2]), Some(vec![0xde, 0xf1]));
    assert!(matches!(r, Err(RequestError::DataInputMismatch)));
    assert_eq!(
        RequestError::DataInputMismatch.message(),
        "data and input must be equal when both are present"
    );
}

#[test]
fn equal_data_and_input_are_kept() {
    let r = reconcile_data_input(Some(vec![0xab, 0xc2]), Some(vec![0xab, 0xc2])).expect("equal");
    assert_eq!(r, (Some(vec![0xab, 0xc2]), Some(vec![0xab, 0xc2])));
}

#[test]
fn input_alone_becomes_data() {
    let r = reconcile_data_input(None, Some(vec![1, 2])).expect("no conflict");
    assert_eq!(r, (Some(vec![1, 2]), None));
}

#[test]
fn empty_request_is_eip1559() {
    match request().into_message() {
        Some(TransactionMessage::EIP1559(m)) => {
            assert_eq!(m.chain_id, 0);
            assert_eq!(m.max_fee_per_gas.0, [0; 4]);
            assert!(m.input.is_empty());
            assert!(matches!(m.action, TransactionAction::Create));
        }
        _ => panic!("expected an EIP-1559 message"),
    }
}

#[test]
fn gas_price_alone_is_legacy() {
    let mut r = request();
    r.gas_price = Some(U256::from_u64(0x10));
    r.to = Some(H160::repeat_byte(0x13));
    r.data = Some(vec![0x12, 0x3a]);
    match r.into_message() {
        Some(TransactionMessage::Legacy(m)) => {
            assert_eq!(m.gas_price.0, [0x10, 0, 0, 0]);
            assert_eq!(m.input, vec![0x12, 0x3a]);
            assert!(matches!(m.action, TransactionAction::Call(a) if a == H160::repeat_byte(0x13)));
            assert!(m.chain_id.is_none());
        }
        _ => panic!("expected a legacy message"),
    }
}

#[test]
fn gas_price_with_max_fee_gives_nothing() {
    let mut r = request();
    r.gas_price = Some(U256::from_u64(1));
    r.max_fee_per_gas = Some(U256::from_u64(2));
    assert!(r.into_message().is_none());
}

#[test]
fn access_list_without_max_fee_is_eip2930() {
    let mut r = request();
    r.access_list = Some(vec![]);
    assert!(matches!(r.into_message(), Some(TransactionMessage::EIP2930(_))));
}
