use saturn_payouts::address::{decode, AddressError};
use saturn_payouts::batch::{
    after_outcome, count_batches, first_action, first_unsent_row, parse_payouts,
    split_and_aggregate, sum_amounts, unsent_entries, BatchError, BatchFailure, PayoutBatch,
    PayoutEntry, PayoutRow, RunAction, MAX_PAYEES_PER_PAYOUT,
};
use saturn_payouts::dispatch::{DispatchError, Receipt, TransactionOutcome, TxHash};
use saturn_payouts::u256::U256;

const MAX: U256 = U256 { w3: u64::MAX, w2: u64::MAX, w1: u64::MAX, w0: u64::MAX };

fn entry(id: usize, atto: u128) -> PayoutEntry {
    PayoutEntry { address: decode(&format!("f0{}", id)).unwrap(), amount: U256::from_u128(atto) }
}

fn entries(n: usize) -> Vec<PayoutEntry> {
    (0..n).map(|i| entry(i, i as u128 + 1)).collect()
}

fn hash(n: u64) -> TxHash {
    TxHash { bits: U256::from_u64(n) }
}

fn confirmed(n: u64) -> Result<TransactionOutcome, BatchFailure> {
    Ok(TransactionOutcome::Confirmed(Receipt { transaction_hash: hash(n), contract_address: None }))
}

fn flatten(batches: &[PayoutBatch]) -> Vec<PayoutEntry> {
    let mut all = Vec::new();
    for batch in batches {
        all.extend(batch.entries().iter().cloned());
    }
    all
}

#[test]
fn the_cap_is_seven_hundred() {
    assert_eq!(MAX_PAYEES_PER_PAYOUT, 700);
}

#[test]
fn batches_partition_the_list() {
    for n in [0usize, 1, 2, 699, 700, 701, 1399, 1400, 1401, 2100, 5000] {
        let list = entries(n);
        let batches = split_and_aggregate(list.clone(), 700).unwrap();
        assert_eq!(batches.len(), (n + 699) / 700);
        assert_eq!(batches.len(), count_batches(n, 700));
        assert_eq!(flatten(&batches), list);
        let mut sum: u128 = 0;
        for (k, batch) in batches.iter().enumerate() {
            assert_eq!(batch.start(), k * 700);
            assert_eq!(batch.end(), std::cmp::min((k + 1) * 700, n));
            assert!(batch.entries().len() >= 1 && batch.entries().len() <= 700);
            assert_eq!(batch.entries()[..], list[batch.start()..batch.end()]);
            let total: u128 = (batch.start()..batch.end()).map(|i| i as u128 + 1).sum();
            assert_eq!(batch.total(), U256::from_u128(total));
            sum += total;
        }
        assert_eq!(sum, (n as u128) * (n as u128 + 1) / 2);
    }
}

#[test]
fn the_last_batch_may_be_smaller() {
    let batches = split_and_aggregate(entries(10), 3).unwrap();
    let sizes: Vec<usize> = batches.iter().map(|b| b.entries().len()).collect();
    assert_eq!(sizes, vec![3, 3, 3, 1]);
    let totals: Vec<U256> = batches.iter().map(|b| b.total()).collect();
    assert_eq!(
        totals,
        vec![U256::from_u64(6), U256::from_u64(15), U256::from_u64(24), U256::from_u64(10)]
    );
    let batches = split_and_aggregate(entries(3), 1).unwrap();
    assert_eq!(batches.len(), 3);
    let batches = split_and_aggregate(entries(3), usize::MAX).unwrap();
    assert_eq!(batches.len(), 1);
}

#[test]
fn batch_counts() {
    assert_eq!(count_batches(0, 700), 0);
    assert_eq!(count_batches(1, 700), 1);
    assert_eq!(count_batches(700, 700), 1);
    assert_eq!(count_batches(701, 700), 2);
    assert_eq!(count_batches(usize::MAX, 1), usize::MAX);
    assert_eq!(count_batches(usize::MAX, usize::MAX), 1);
    assert_eq!(count_batches(usize::MAX, 2), usize::MAX / 2 + 1);
}

#[test]
fn totals_fit_where_each_amount_is_large() {
    let list: Vec<PayoutEntry> = (0..700).map(|i| entry(i, u128::MAX)).collect();
    let batches = split_and_aggregate(list, 700).unwrap();
    let expected = U256::from_u128(u128::MAX).checked_mul_u64(700).unwrap();
    assert_eq!(batches[0].total(), expected);
}

#[test]
fn a_total_that_overflows_is_refused() {
    let mut list = entries(2);
    list[0].amount = MAX;
    assert_eq!(sum_amounts(&list), None);
    assert_eq!(
        split_and_aggregate(list, 700),
        Err(BatchError { cause: BatchFailure::Overflow, start: 0, end: 2 })
    );
    let mut list = entries(5);
    list[2].amount = MAX;
    assert_eq!(
        split_and_aggregate(list.clone(), 2),
        Err(BatchError { cause: BatchFailure::Overflow, start: 2, end: 4 })
    );
    list[2].amount = U256::from_u64(1);
    list[4].amount = MAX;
    assert!(split_and_aggregate(list.clone(), 2).is_ok());
    assert_eq!(
        split_and_aggregate(list, 5),
        Err(BatchError { cause: BatchFailure::Overflow, start: 0, end: 5 })
    );
}

#[test]
fn amounts_add_up() {
    assert_eq!(sum_amounts(&entries(0)), Some(U256::zero()));
    assert_eq!(sum_amounts(&entries(4)), Some(U256::from_u64(10)));
    let mut list = entries(2);
    list[0].amount = MAX;
    list[1].amount = U256::zero();
    assert_eq!(sum_amounts(&list), Some(MAX));
}

#[test]
fn payout_rows_are_decoded() {
    let rows = vec![
        PayoutRow { payee: "f01".to_string(), atto: 10_000_000_000_000_000 },
        PayoutRow {
            payee: "t410fkkld55ioe7qg24wvt7fu6pbknb56ht7pt4zamxa".to_string(),
            atto: 100_000_000_000_000,
        },
    ];
    let parsed = parse_payouts(&rows).unwrap();
    assert_eq!(parsed.len(), 2);
    assert_eq!(parsed[0].address, decode("f01").unwrap());
    assert_eq!(parsed[0].amount, U256::from_u128(10_000_000_000_000_000));
    assert_eq!(
        parsed[1].address,
        decode("t410fkkld55ioe7qg24wvt7fu6pbknb56ht7pt4zamxa").unwrap()
    );
    assert_eq!(parsed[1].amount, U256::from_u128(100_000_000_000_000));
    assert_eq!(parse_payouts(&vec![]), Ok(vec![]));
}

#[test]
fn the_first_refused_payee_fails_the_list() {
    let rows = vec![
        PayoutRow { payee: "f01".to_string(), atto: 1 },
        PayoutRow { payee: "f0x".to_string(), atto: 1 },
        PayoutRow { payee: "q01".to_string(), atto: 1 },
    ];
    assert_eq!(
        parse_payouts(&rows),
        Err(BatchError {
            cause: BatchFailure::Address(AddressError::InvalidAddress),
            start: 1,
            end: 2
        })
    );
    let rows = vec![PayoutRow {
        payee: "t1ypi542zmmgaltijzw4byonei5c267ev5iif2liy".to_string(),
        atto: 1,
    }];
    assert_eq!(
        parse_payouts(&rows),
        Err(BatchError {
            cause: BatchFailure::Address(AddressError::RPCFailure),
            start: 0,
            end: 1
        })
    );
}

#[test]
fn a_run_submits_the_batches_in_order() {
    let batches = split_and_aggregate(entries(1500), 700).unwrap();
    assert_eq!(first_action(&batches), RunAction::Submit(0));
    assert_eq!(after_outcome(&batches, 0, confirmed(1)), RunAction::Submit(1));
    assert_eq!(after_outcome(&batches, 1, confirmed(2)), RunAction::Submit(2));
    assert_eq!(after_outcome(&batches, 2, confirmed(3)), RunAction::Finish);
    assert_eq!(after_outcome(&batches, 3, confirmed(4)), RunAction::Finish);
    assert_eq!(first_action(&Vec::new()), RunAction::Finish);
}

#[test]
fn an_unconfirmed_batch_stops_the_run_and_is_not_submitted_again() {
    let batches = split_and_aggregate(entries(1500), 700).unwrap();
    let stop = RunAction::Abort {
        error: BatchError {
            cause: BatchFailure::Dispatch(DispatchError::NoReceipt(hash(9))),
            start: 700,
            end: 1400,
        },
        first_unsent: 2,
    };
    assert_eq!(
        after_outcome(&batches, 1, Ok(TransactionOutcome::Unconfirmed(hash(9)))),
        stop
    );
    assert_eq!(
        after_outcome(&batches, 1, Err(BatchFailure::Dispatch(DispatchError::NoReceipt(hash(9))))),
        stop
    );
    let unsent = unsent_entries(&batches, 2);
    assert_eq!(unsent, entries(1500)[1400..].to_vec());
    assert_eq!(first_unsent_row(&batches, 2), 1400);
}

#[test]
fn a_batch_that_was_not_dispatched_starts_the_recovery_list() {
    let batches = split_and_aggregate(entries(1500), 700).unwrap();
    assert_eq!(
        after_outcome(&batches, 1, Err(BatchFailure::Dispatch(DispatchError::EstimationFailed))),
        RunAction::Abort {
            error: BatchError {
                cause: BatchFailure::Dispatch(DispatchError::EstimationFailed),
                start: 700,
                end: 1400,
            },
            first_unsent: 1,
        }
    );
    assert_eq!(
        after_outcome(
            &batches,
            2,
            Err(BatchFailure::Dispatch(DispatchError::ContractNotDeployed))
        ),
        RunAction::Abort {
            error: BatchError {
                cause: BatchFailure::Dispatch(DispatchError::ContractNotDeployed),
                start: 1400,
                end: 1500,
            },
            first_unsent: 2,
        }
    );
    assert_eq!(
        after_outcome(&batches, 0, Err(BatchFailure::Rejected)),
        RunAction::Abort {
            error: BatchError { cause: BatchFailure::Rejected, start: 0, end: 700 },
            first_unsent: 0,
        }
    );
    assert_eq!(unsent_entries(&batches, 1), entries(1500)[700..].to_vec());
    assert_eq!(unsent_entries(&batches, 0), entries(1500));
    assert_eq!(unsent_entries(&batches, 3), vec![]);
    assert_eq!(unsent_entries(&batches, 7), vec![]);
    assert_eq!(first_unsent_row(&batches, 0), 0);
    assert_eq!(first_unsent_row(&batches, 1), 700);
    assert_eq!(first_unsent_row(&batches, 3), 1500);
    assert_eq!(first_unsent_row(&batches, 9), 1500);
    assert_eq!(first_unsent_row(&Vec::new(), 0), 0);
}

#[test]
fn only_a_missing_receipt_leaves_a_batch_in_doubt() {
    let error = |cause| BatchError { cause, start: 0, end: 1 };
    assert!(error(BatchFailure::Dispatch(DispatchError::NoReceipt(hash(1)))).is_ambiguous());
    assert!(!error(BatchFailure::Dispatch(DispatchError::EstimationFailed)).is_ambiguous());
    assert!(!error(BatchFailure::Dispatch(DispatchError::ContractNotDeployed)).is_ambiguous());
    assert!(!error(BatchFailure::Overflow).is_ambiguous());
    assert!(!error(BatchFailure::Rejected).is_ambiguous());
    assert!(!error(BatchFailure::Address(AddressError::InvalidChecksum)).is_ambiguous());
}
