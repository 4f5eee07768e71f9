use saturn_payouts::dispatch::{
    broadcast_accepted, deployed_contract, gas_limit, poll_result, prepare, receipt_of,
    set_tx_gas, DispatchError, EthAddress, Receipt, SubmitStep, Submission, Transaction,
    TransactionOutcome, TxHash, GAS_LIMIT_MULTIPLIER,
};
use saturn_payouts::u256::U256;

const MAX: U256 = U256 { w3: u64::MAX, w2: u64::MAX, w1: u64::MAX, w0: u64::MAX };

fn hash(n: u64) -> TxHash {
    TxHash { bits: U256::from_u64(n) }
}

fn receipt(n: u64, contract: Option<EthAddress>) -> Receipt {
    Receipt { transaction_hash: hash(n), contract_address: contract }
}

fn transaction() -> Transaction {
    Transaction {
        from: Some(EthAddress { high: 1, low: 2 }),
        to: Some(EthAddress { high: 3, low: 4 }),
        value: U256::from_u64(5),
        data: vec![1, 2, 3],
        gas: None,
        gas_price: None,
    }
}

#[test]
fn the_gas_limit_is_130_percent_of_the_estimate() {
    assert_eq!(GAS_LIMIT_MULTIPLIER, 130);
    assert_eq!(gas_limit(U256::from_u64(0)), Some(U256::from_u64(0)));
    assert_eq!(gas_limit(U256::from_u64(1)), Some(U256::from_u64(1)));
    assert_eq!(gas_limit(U256::from_u64(7)), Some(U256::from_u64(9)));
    assert_eq!(gas_limit(U256::from_u64(100)), Some(U256::from_u64(130)));
    assert_eq!(gas_limit(U256::from_u64(1_000_000)), Some(U256::from_u64(1_300_000)));
    assert_eq!(
        gas_limit(U256::from_u64(u64::MAX)),
        Some(U256::from_u128(u64::MAX as u128 * 130 / 100))
    );
}

#[test]
fn an_estimate_too_large_to_scale_is_refused() {
    let largest = MAX.div_u64(130);
    assert!(gas_limit(largest).is_some());
    let next = largest.checked_add(U256::from_u64(1)).unwrap();
    assert_eq!(gas_limit(next), None);
    assert_eq!(gas_limit(MAX), None);
    assert_eq!(
        prepare(transaction(), MAX, U256::from_u64(1)),
        Err(DispatchError::EstimationFailed)
    );
}

#[test]
fn gas_is_attached_and_nothing_else_changes() {
    let mut tx = transaction();
    set_tx_gas(&mut tx, U256::from_u64(200), U256::from_u64(17));
    let mut expected = transaction();
    expected.gas = Some(U256::from_u64(260));
    expected.gas_price = Some(U256::from_u64(17));
    assert_eq!(tx, expected);
    assert_eq!(prepare(transaction(), U256::from_u64(200), U256::from_u64(17)), Ok(expected));
}

#[test]
fn a_receipt_confirms() {
    let step = broadcast_accepted(hash(5), 3);
    assert_eq!(step, SubmitStep::Poll(Submission { hash: hash(5), attempts_left: 3 }));
    let waiting = Submission { hash: hash(5), attempts_left: 3 };
    assert_eq!(
        poll_result(waiting, Some(receipt(5, None))),
        SubmitStep::Settled(TransactionOutcome::Confirmed(receipt(5, None)))
    );
    let last = Submission { hash: hash(5), attempts_left: 1 };
    assert_eq!(
        poll_result(last, Some(receipt(5, None))),
        SubmitStep::Settled(TransactionOutcome::Confirmed(receipt(5, None)))
    );
}

#[test]
fn an_exhausted_budget_is_unconfirmed_with_the_hash() {
    for retries in [0usize, 1, 2, 10] {
        let mut step = broadcast_accepted(hash(5), retries);
        let mut polls = 0;
        while let SubmitStep::Poll(waiting) = step {
            assert_eq!(waiting.hash, hash(5));
            assert_eq!(waiting.attempts_left, retries - polls);
            step = poll_result(waiting, None);
            polls += 1;
        }
        assert_eq!(polls, retries);
        assert_eq!(step, SubmitStep::Settled(TransactionOutcome::Unconfirmed(hash(5))));
    }
    assert_eq!(
        poll_result(Submission { hash: hash(5), attempts_left: 0 }, None),
        SubmitStep::Settled(TransactionOutcome::Unconfirmed(hash(5)))
    );
}

#[test]
fn an_unconfirmed_outcome_is_no_receipt() {
    assert_eq!(
        receipt_of(TransactionOutcome::Unconfirmed(hash(8))),
        Err(DispatchError::NoReceipt(hash(8)))
    );
    assert_eq!(
        receipt_of(TransactionOutcome::Confirmed(receipt(8, None))),
        Ok(receipt(8, None))
    );
    assert_ne!(
        TransactionOutcome::Unconfirmed(hash(8)),
        TransactionOutcome::Confirmed(receipt(8, None))
    );
}

#[test]
fn a_deployment_needs_a_contract_address() {
    let contract = EthAddress { high: 0xdead, low: 0xbeef };
    assert_eq!(
        deployed_contract(TransactionOutcome::Confirmed(receipt(1, Some(contract)))),
        Ok(contract)
    );
    assert_eq!(
        deployed_contract(TransactionOutcome::Confirmed(receipt(1, None))),
        Err(DispatchError::ContractNotDeployed)
    );
    assert_eq!(
        deployed_contract(TransactionOutcome::Unconfirmed(hash(1))),
        Err(DispatchError::NoReceipt(hash(1)))
    );
}

#[test]
fn only_a_missing_receipt_is_ambiguous() {
    assert!(DispatchError::NoReceipt(hash(1)).is_ambiguous());
    assert!(!DispatchError::EstimationFailed.is_ambiguous());
    assert!(!DispatchError::ContractNotDeployed.is_ambiguous());
}
