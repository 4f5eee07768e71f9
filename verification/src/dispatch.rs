//! The transaction dispatcher's decisions: the gas that a transaction is
//! sent with, and what a submission ends in.

use vstd::prelude::*;

use crate::u256::{limit, U256};

verus! {

/// The gas limit of a transaction, in percent of the estimate.
pub const GAS_LIMIT_MULTIPLIER: u64 = 130;

/// The hash of a transaction.
#[derive(Clone, Copy, Debug, PartialEq, Eq, Structural)]
pub struct TxHash {
    pub bits: U256,
}

/// An address of the contract layer: 160 bits.
#[derive(Clone, Copy, Debug, PartialEq, Eq, Structural)]
pub struct EthAddress {
    /// Bits 128 to 159.
    pub high: u32,
    /// Bits 0 to 127.
    pub low: u128,
}

/// What the chain reports of a transaction that it has included.
#[derive(Clone, Copy, Debug, PartialEq, Eq, Structural)]
pub struct Receipt {
    pub transaction_hash: TxHash,
    /// The contract that the transaction created, if it created one.
    pub contract_address: Option<EthAddress>,
}

/// What a submission ended in. `Unconfirmed` is no failure: the transaction
/// was broadcast, and whether it was included is not known.
#[derive(Clone, Copy, Debug, PartialEq, Eq, Structural)]
pub enum TransactionOutcome {
    Confirmed(Receipt),
    Unconfirmed(TxHash),
}

/// Why a dispatch did not give a receipt.
#[derive(Clone, Copy, Debug, PartialEq, Eq, Structural)]
pub enum DispatchError {
    /// No usable gas estimate was obtained.
    EstimationFailed,
    /// The transaction was broadcast and no receipt was seen in the attempts
    /// allowed: its final state is unknown.
    NoReceipt(TxHash),
    /// The receipt of a deployment names no contract.
    ContractNotDeployed,
}

impl DispatchError {
    /// Whether the error leaves the final state of the transaction unknown,
    /// as against a transaction that was not sent or that failed.
    pub fn is_ambiguous(&self) -> (res: bool)
        ensures
            res == (*self is NoReceipt),
    {
        match self {
            DispatchError::NoReceipt(_) => true,
            _ => false,
        }
    }
}

/// A transaction before it is signed.
#[derive(Debug, Clone, PartialEq, Eq)]
pub struct Transaction {
    pub from: Option<EthAddress>,
    pub to: Option<EthAddress>,
    pub value: U256,
    pub data: Vec<u8>,
    pub gas: Option<U256>,
    pub gas_price: Option<U256>,
}

/// The gas limit for an estimate: `GAS_LIMIT_MULTIPLIER` percent of it,
/// rounded down.
pub open spec fn gas_limit_spec(estimate: nat) -> nat {
    estimate * (GAS_LIMIT_MULTIPLIER as nat) / 100
}

/// The gas limit for an estimate, `None` where the estimate times
/// `GAS_LIMIT_MULTIPLIER` does not fit in 256 bits.
pub fn gas_limit(estimate: U256) -> (res: Option<U256>)
    ensures
        match res {
            Some(gas) => gas.value() == gas_limit_spec(estimate.value()) && estimate.value() * (
            GAS_LIMIT_MULTIPLIER as nat) < limit(),
            None => estimate.value() * (GAS_LIMIT_MULTIPLIER as nat) >= limit(),
        },
{
    match estimate.checked_mul_u64(GAS_LIMIT_MULTIPLIER) {
        Some(scaled) => {
            proof {
                scaled.lemma_value_bound();
            }
            Some(scaled.div_u64(100))
        },
        None => None,
    }
}

/// Sets the gas limit of `tx` to `GAS_LIMIT_MULTIPLIER` percent of the
/// estimate and its gas price to `gas_price`. Nothing else changes.
pub fn set_tx_gas(tx: &mut Transaction, gas_estimate: U256, gas_price: U256)
    requires
        gas_estimate.value() * (GAS_LIMIT_MULTIPLIER as nat) < limit(),
    ensures
        final(tx).gas is Some,
        final(tx).gas.unwrap().value() == gas_limit_spec(gas_estimate.value()),
        final(tx).gas_price == Some(gas_price),
        final(tx).from == old(tx).from,
        final(tx).to == old(tx).to,
        final(tx).value == old(tx).value,
        final(tx).data == old(tx).data,
{
    let gas: Option<U256> = gas_limit(gas_estimate);
    tx.gas = gas;
    tx.gas_price = Some(gas_price);
}

/// The transaction with its gas limit and gas price attached, ready to be
/// signed: `EstimationFailed` exactly when the estimate times
/// `GAS_LIMIT_MULTIPLIER` does not fit in 256 bits.
pub fn prepare(tx: Transaction, gas_estimate: U256, gas_price: U256) -> (res: Result<
    Transaction,
    DispatchError,
>)
    ensures
        match res {
            Ok(ready) => {
                &&& gas_estimate.value() * (GAS_LIMIT_MULTIPLIER as nat) < limit()
                &&& ready.gas is Some
                &&& ready.gas.unwrap().value() == gas_limit_spec(gas_estimate.value())
                &&& ready.gas_price == Some(gas_price)
                &&& ready.from == tx.from
                &&& ready.to == tx.to
                &&& ready.value == tx.value
                &&& ready.data == tx.data
            },
            Err(e) => {
                &&& gas_estimate.value() * (GAS_LIMIT_MULTIPLIER as nat) >= limit()
                &&& e == DispatchError::EstimationFailed
            },
        },
{
    match gas_limit(gas_estimate) {
        Some(gas) => {
            let mut ready = tx;
            ready.gas = Some(gas);
            ready.gas_price = Some(gas_price);
            Ok(ready)
        },
        None => Err(DispatchError::EstimationFailed),
    }
}

/// A transaction that was broadcast and whose receipt is waited for.
#[derive(Clone, Copy, Debug, PartialEq, Eq, Structural)]
pub struct Submission {
    pub hash: TxHash,
    /// How many more times the receipt may be asked for.
    pub attempts_left: usize,
}

/// What follows in a submission: one more question for the receipt, or the
/// outcome.
#[derive(Clone, Copy, Debug, PartialEq, Eq, Structural)]
pub enum SubmitStep {
    Poll(Submission),
    Settled(TransactionOutcome),
}

/// The step after a broadcast that gave `hash`, with `retries` attempts to
/// get the receipt.
pub open spec fn broadcast_spec(hash: TxHash, retries: usize) -> SubmitStep {
    if retries == 0 {
        SubmitStep::Settled(TransactionOutcome::Unconfirmed(hash))
    } else {
        SubmitStep::Poll(Submission { hash, attempts_left: retries })
    }
}

/// The step after the receipt was asked for once more and `answer` came.
pub open spec fn poll_spec(waiting: Submission, answer: Option<Receipt>) -> SubmitStep {
    match answer {
        Some(receipt) => SubmitStep::Settled(TransactionOutcome::Confirmed(receipt)),
        None => if waiting.attempts_left <= 1 {
            SubmitStep::Settled(TransactionOutcome::Unconfirmed(waiting.hash))
        } else {
            SubmitStep::Poll(
                Submission { hash: waiting.hash, attempts_left: (waiting.attempts_left - 1) as usize },
            )
        },
    }
}

/// The step that is reached from `step` when the receipt is asked for `n`
/// times in vain.
pub open spec fn after_misses(step: SubmitStep, n: nat) -> SubmitStep
    decreases n,
{
    if n == 0 {
        step
    } else {
        match step {
            SubmitStep::Poll(waiting) => after_misses(poll_spec(waiting, None), (n - 1) as nat),
            SubmitStep::Settled(outcome) => step,
        }
    }
}

/// The step after a broadcast that gave `hash`.
pub fn broadcast_accepted(hash: TxHash, retries: usize) -> (step: SubmitStep)
    ensures
        step == broadcast_spec(hash, retries),
{
    if retries == 0 {
        SubmitStep::Settled(TransactionOutcome::Unconfirmed(hash))
    } else {
        SubmitStep::Poll(Submission { hash, attempts_left: retries })
    }
}

/// The step after the receipt was asked for once more. A receipt settles
/// the submission as confirmed; no receipt at the last attempt settles it as
/// unconfirmed; else one attempt fewer is left.
pub fn poll_result(waiting: Submission, answer: Option<Receipt>) -> (step: SubmitStep)
    ensures
        step == poll_spec(waiting, answer),
        match step {
            SubmitStep::Poll(next) => next.attempts_left < waiting.attempts_left && next.hash
                == waiting.hash,
            SubmitStep::Settled(outcome) => true,
        },
{
    match answer {
        Some(receipt) => SubmitStep::Settled(TransactionOutcome::Confirmed(receipt)),
        None => {
            if waiting.attempts_left <= 1 {
                SubmitStep::Settled(TransactionOutcome::Unconfirmed(waiting.hash))
            } else {
                SubmitStep::Poll(
                    Submission { hash: waiting.hash, attempts_left: waiting.attempts_left - 1 },
                )
            }
        },
    }
}

/// The receipt of a submission, or `NoReceipt` with the hash where the
/// outcome is unconfirmed.
pub fn receipt_of(outcome: TransactionOutcome) -> (res: Result<Receipt, DispatchError>)
    ensures
        res == (match outcome {
            TransactionOutcome::Confirmed(receipt) => Ok::<Receipt, DispatchError>(receipt),
            TransactionOutcome::Unconfirmed(hash) => Err::<Receipt, DispatchError>(
                DispatchError::NoReceipt(hash),
            ),
        }),
{
    match outcome {
        TransactionOutcome::Confirmed(receipt) => Ok(receipt),
        TransactionOutcome::Unconfirmed(hash) => Err(DispatchError::NoReceipt(hash)),
    }
}

/// The contract that a deployment created: `NoReceipt` where the outcome is
/// unconfirmed, `ContractNotDeployed` where the receipt names no contract.
pub fn deployed_contract(outcome: TransactionOutcome) -> (res: Result<EthAddress, DispatchError>)
    ensures
        res == (match outcome {
            TransactionOutcome::Confirmed(receipt) => match receipt.contract_address {
                Some(address) => Ok::<EthAddress, DispatchError>(address),
                None => Err::<EthAddress, DispatchError>(DispatchError::ContractNotDeployed),
            },
            TransactionOutcome::Unconfirmed(hash) => Err::<EthAddress, DispatchError>(
                DispatchError::NoReceipt(hash),
            ),
        }),
{
    match outcome {
        TransactionOutcome::Confirmed(receipt) => match receipt.contract_address {
            Some(address) => Ok(address),
            None => Err(DispatchError::ContractNotDeployed),
        },
        TransactionOutcome::Unconfirmed(hash) => Err(DispatchError::NoReceipt(hash)),
    }
}

/// A submission whose receipt never comes is settled as unconfirmed, with
/// the hash of the broadcast, when the attempts are used up, and is still
/// waiting before that.
pub proof fn lemma_exhausted_is_unconfirmed(hash: TxHash, retries: usize, misses: nat)
    ensures
        misses >= retries ==> after_misses(broadcast_spec(hash, retries), misses)
            == SubmitStep::Settled(TransactionOutcome::Unconfirmed(hash)),
        misses < retries ==> after_misses(broadcast_spec(hash, retries), misses)
            == SubmitStep::Poll(
            Submission { hash, attempts_left: (retries - misses) as usize },
        ),
    decreases misses,
{
    if retries > 0 {
        lemma_misses_from(Submission { hash, attempts_left: retries }, misses);
    } else {
        lemma_settled_stays(TransactionOutcome::Unconfirmed(hash), misses);
    }
}

/// What `misses` questions in vain lead to from a waiting submission.
pub proof fn lemma_misses_from(waiting: Submission, misses: nat)
    requires
        waiting.attempts_left > 0,
    ensures
        misses >= waiting.attempts_left ==> after_misses(SubmitStep::Poll(waiting), misses)
            == SubmitStep::Settled(TransactionOutcome::Unconfirmed(waiting.hash)),
        misses < waiting.attempts_left ==> after_misses(SubmitStep::Poll(waiting), misses)
            == SubmitStep::Poll(
            Submission {
                hash: waiting.hash,
                attempts_left: (waiting.attempts_left - misses) as usize,
            },
        ),
    decreases misses,
{
    if misses > 0 {
        if waiting.attempts_left <= 1 {
            lemma_settled_stays(
                TransactionOutcome::Unconfirmed(waiting.hash),
                (misses - 1) as nat,
            );
        } else {
            lemma_misses_from(
                Submission {
                    hash: waiting.hash,
                    attempts_left: (waiting.attempts_left - 1) as usize,
                },
                (misses - 1) as nat,
            );
        }
    }
}

/// A settled submission stays as it is.
pub proof fn lemma_settled_stays(outcome: TransactionOutcome, misses: nat)
    ensures
        after_misses(SubmitStep::Settled(outcome), misses) == SubmitStep::Settled(outcome),
    decreases misses,
{
    if misses > 0 {
        lemma_settled_stays(outcome, (misses - 1) as nat);
    }
}

} // verus!
