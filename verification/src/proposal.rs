//! The proposal encoder: the framed call data that a proxy actor invokes a
//! contract with, the messages that propose, approve and cancel a payout,
//! and the states that such a message goes through.

use vstd::prelude::*;

use crate::dispatch::TransactionOutcome;
use crate::hexfmt::{hex_bytes, hex_decode, is_hex};
use crate::u256::U256;

verus! {

/// The method of the contract actor that invokes a contract.
pub const METHOD_INVOKE_CONTRACT: u64 = 3844450837;

/// The method of the multisig actor that proposes a transaction.
pub const METHOD_PROPOSE: u64 = 2;

/// The method of the multisig actor that approves a transaction.
pub const METHOD_APPROVE: u64 = 3;

/// The method of the multisig actor that cancels a transaction.
pub const METHOD_CANCEL: u64 = 3365893656;

/// The fee bound that gas is estimated under: none, the message goes to the
/// pool as it is.
pub const MAX_FEE: &'static str = "0";

/// The gas limit of a message, in percent of the estimate. The percentage
/// is applied as a whole-number factor.
pub const GAS_LIMIT_MULTIPLIER: u64 = 150;

/// Which of the four length widths a length needs: the first for lengths
/// below `2^8`, the second below `2^16`, the third below `2^32`, the fourth
/// for all others.
pub open spec fn width_index(len: nat) -> nat {
    if len < 0x100 {
        0
    } else if len < 0x1_0000 {
        1
    } else if len < 0x1_0000_0000 {
        2
    } else {
        3
    }
}

/// The header byte of each width, in their order.
pub open spec fn header_byte(index: nat) -> u8 {
    (0x58 + index) as u8
}

/// The bytes of `n`, most significant first, without leading zero bytes;
/// zero is one zero byte.
pub open spec fn be_minimal(n: nat) -> Seq<u8>
    decreases n,
{
    if n < 256 {
        seq![n as u8]
    } else {
        be_minimal(n / 256).push((n % 256) as u8)
    }
}

/// The framed call data: the header byte of the width that the length
/// needs, the length without leading zero bytes, which may be shorter than
/// that width, and the call data.
pub open spec fn invoke_params_spec(call_bytes: Seq<u8>) -> Seq<u8> {
    seq![header_byte(width_index(call_bytes.len()))] + be_minimal(call_bytes.len()) + call_bytes
}

/// The header of each width in hexadecimal, as the table of headers holds
/// it.
fn header_text(index: usize) -> (text: &'static str)
    requires
        index < 4,
    ensures
        is_hex(text@),
        hex_bytes(text@) == seq![header_byte(index as nat)],
{
    proof {
        reveal_strlit("58");
        reveal_strlit("59");
        reveal_strlit("5a");
        reveal_strlit("5b");
    }
    let text: &'static str = if index == 0 {
        "58"
    } else if index == 1 {
        "59"
    } else if index == 2 {
        "5a"
    } else {
        "5b"
    };
    proof {
        assert(text@.len() == 2);
        assert(hex_bytes(text@) =~= seq![header_byte(index as nat)]);
    }
    text
}

/// Which of the four length widths `len` needs.
pub fn width_of(len: usize) -> (index: usize)
    ensures
        index == width_index(len as nat),
        index < 4,
{
    if len < 0x100 {
        0
    } else if len < 0x1_0000 {
        1
    } else if (len as u64) < 0x1_0000_0000 {
        2
    } else {
        3
    }
}

/// The bytes of `n`, most significant first, without leading zero bytes.
pub fn be_minimal_bytes(n: u64) -> (out: Vec<u8>)
    ensures
        out@ == be_minimal(n as nat),
{
    let mut out: Vec<u8> = Vec::new();
    let mut rest: u64 = n;
    while rest >= 256
        invariant
            be_minimal(n as nat) == be_minimal(rest as nat) + out@,
        decreases rest,
    {
        let ghost before = out@;
        out.insert(0, (rest % 256) as u8);
        proof {
            assert(be_minimal(rest as nat) == be_minimal((rest / 256) as nat).push(
                (rest % 256) as u8,
            ));
            assert(be_minimal((rest / 256) as nat) + out@ =~= be_minimal(rest as nat) + before);
        }
        rest = rest / 256;
    }
    let ghost before = out@;
    out.insert(0, rest as u8);
    proof {
        assert(out@ =~= be_minimal(rest as nat) + before);
    }
    out
}

/// Frames call data for the method that invokes a contract.
pub fn encode_invoke_params(call_bytes: &[u8]) -> (params: Vec<u8>)
    ensures
        params@ == invoke_params_spec(call_bytes@),
{
    let len: usize = call_bytes.len();
    let mut params: Vec<u8> = match hex_decode(header_text(width_of(len))) {
        Some(header) => header,
        None => {
            // Not reached: every header of the table is hexadecimal.
            proof {
                assert(false);
            }
            Vec::new()
        },
    };
    let mut length: Vec<u8> = be_minimal_bytes(len as u64);
    params.append(&mut length);
    let ghost prefix = params@;
    let mut i: usize = 0;
    while i < len
        invariant
            i <= len,
            len == call_bytes@.len(),
            params@ == prefix + call_bytes@.take(i as int),
        decreases len - i,
    {
        params.push(call_bytes[i]);
        proof {
            assert(params@ =~= prefix + call_bytes@.take(i + 1));
        }
        i = i + 1;
    }
    proof {
        assert(call_bytes@.take(len as int) =~= call_bytes@);
    }
    params
}

/// What a message asks of the actor that receives it.
#[derive(Debug, Clone, PartialEq, Eq)]
pub enum MessageParams {
    /// Propose to send `params` to `method` of `to`, with `value`.
    Propose { to: String, value: U256, method: u64, params: Vec<u8> },
    /// Name a pending transaction by its id and the hash of its proposal.
    TxnId { id: i64, proposal_hash: Vec<u8> },
    /// Framed call data for a contract.
    Invoke { params: Vec<u8> },
}

/// A message before it is signed.
#[derive(Debug, Clone, PartialEq, Eq)]
pub struct Message {
    pub version: u64,
    pub to: String,
    pub from: String,
    pub sequence: u64,
    pub value: U256,
    pub gas_limit: u64,
    pub gas_fee_cap: U256,
    pub gas_premium: U256,
    pub method_num: u64,
    pub params: MessageParams,
}

/// What a message asks, as a mathematical value.
pub enum ParamsView {
    Propose { to: Seq<char>, value: U256, method: u64, params: Seq<u8> },
    TxnId { id: i64, proposal_hash: Seq<u8> },
    Invoke { params: Seq<u8> },
}

/// A message as a mathematical value.
pub struct MessageView {
    pub version: u64,
    pub to: Seq<char>,
    pub from: Seq<char>,
    pub sequence: u64,
    pub value: U256,
    pub gas_limit: u64,
    pub gas_fee_cap: U256,
    pub gas_premium: U256,
    pub method_num: u64,
    pub params: ParamsView,
}

impl View for MessageParams {
    type V = ParamsView;

    open spec fn view(&self) -> ParamsView {
        match *self {
            MessageParams::Propose { to, value, method, params } => ParamsView::Propose {
                to: to@,
                value,
                method,
                params: params@,
            },
            MessageParams::TxnId { id, proposal_hash } => ParamsView::TxnId {
                id,
                proposal_hash: proposal_hash@,
            },
            MessageParams::Invoke { params } => ParamsView::Invoke { params: params@ },
        }
    }
}

impl View for Message {
    type V = MessageView;

    open spec fn view(&self) -> MessageView {
        MessageView {
            version: self.version,
            to: self.to@,
            from: self.from@,
            sequence: self.sequence,
            value: self.value,
            gas_limit: self.gas_limit,
            gas_fee_cap: self.gas_fee_cap,
            gas_premium: self.gas_premium,
            method_num: self.method_num,
            params: self.params@,
        }
    }
}

/// The zero of 256 bits.
pub open spec fn zero() -> U256 {
    U256 { w3: 0, w2: 0, w1: 0, w0: 0 }
}

/// A draft: a message from `from` to `to` with the next sequence number of
/// the sender, no value and no gas yet.
pub open spec fn draft_spec(
    to: Seq<char>,
    from: Seq<char>,
    sequence: u64,
    method_num: u64,
    params: ParamsView,
) -> MessageView {
    MessageView {
        version: 0,
        to,
        from,
        sequence,
        value: zero(),
        gas_limit: 0,
        gas_fee_cap: zero(),
        gas_premium: zero(),
        method_num,
        params,
    }
}

/// A draft.
fn draft(to: &str, from: &str, sequence: u64, method_num: u64, params: MessageParams) -> (message:
    Message)
    ensures
        message@ == draft_spec(to@, from@, sequence, method_num, params@),
{
    Message {
        version: 0,
        to: to.to_owned(),
        from: from.to_owned(),
        sequence,
        value: U256::zero(),
        gas_limit: 0,
        gas_fee_cap: U256::zero(),
        gas_premium: U256::zero(),
        method_num,
        params,
    }
}

/// The message by which `signer` proposes to the multisig actor `actor`
/// that it invoke the contract at `receiver` with `call_bytes`. The call
/// data is framed; no value is sent.
pub fn propose_message(
    actor: &str,
    receiver: &str,
    signer: &str,
    nonce: u64,
    call_bytes: &[u8],
) -> (message: Message)
    ensures
        message@ == draft_spec(
            actor@,
            signer@,
            nonce,
            METHOD_PROPOSE,
            ParamsView::Propose {
                to: receiver@,
                value: zero(),
                method: METHOD_INVOKE_CONTRACT,
                params: invoke_params_spec(call_bytes@),
            },
        ),
{
    let params = MessageParams::Propose {
        to: receiver.to_owned(),
        value: U256::zero(),
        method: METHOD_INVOKE_CONTRACT,
        params: encode_invoke_params(call_bytes),
    };
    draft(actor, signer, nonce, METHOD_PROPOSE, params)
}

/// The message by which `signer` approves the pending transaction
/// `transaction_id` of the multisig actor `actor`. The hash of the proposal
/// is left empty.
pub fn approve_message(actor: &str, signer: &str, nonce: u64, transaction_id: i64) -> (message:
    Message)
    ensures
        message@ == draft_spec(
            actor@,
            signer@,
            nonce,
            METHOD_APPROVE,
            ParamsView::TxnId { id: transaction_id, proposal_hash: Seq::empty() },
        ),
{
    let params = MessageParams::TxnId { id: transaction_id, proposal_hash: Vec::new() };
    draft(actor, signer, nonce, METHOD_APPROVE, params)
}

/// The message by which `signer` cancels the pending transaction
/// `transaction_id` of the multisig actor `actor`. The hash of the proposal
/// is left empty.
pub fn cancel_message(actor: &str, signer: &str, nonce: u64, transaction_id: i64) -> (message:
    Message)
    ensures
        message@ == draft_spec(
            actor@,
            signer@,
            nonce,
            METHOD_CANCEL,
            ParamsView::TxnId { id: transaction_id, proposal_hash: Seq::empty() },
        ),
{
    let params = MessageParams::TxnId { id: transaction_id, proposal_hash: Vec::new() };
    draft(actor, signer, nonce, METHOD_CANCEL, params)
}

/// The message by which `signer` invokes the contract at `contract` with
/// `call_bytes`, framed.
pub fn invoke_message(contract: &str, signer: &str, nonce: u64, call_bytes: &[u8]) -> (message:
    Message)
    ensures
        message@ == draft_spec(
            contract@,
            signer@,
            nonce,
            METHOD_INVOKE_CONTRACT,
            ParamsView::Invoke { params: invoke_params_spec(call_bytes@) },
        ),
{
    let params = MessageParams::Invoke { params: encode_invoke_params(call_bytes) };
    draft(contract, signer, nonce, METHOD_INVOKE_CONTRACT, params)
}

/// The gas that a node estimates for a message.
#[derive(Debug, Clone, Copy, PartialEq, Eq, Structural)]
pub struct TransactionGasInfo {
    pub gas_limit: u64,
    pub gas_fee_cap: U256,
    pub gas_premium: U256,
}

/// The gas that a message is sent with, from the message that the node
/// returned with its estimate filled in: the fee cap and the premium as
/// estimated, the limit times `GAS_LIMIT_MULTIPLIER / 100` in whole
/// numbers, which leaves it as estimated.
pub fn get_gas_info(estimated: &Message) -> (info: TransactionGasInfo)
    ensures
        info.gas_limit == estimated.gas_limit * (GAS_LIMIT_MULTIPLIER / 100),
        info.gas_limit == estimated.gas_limit,
        info.gas_fee_cap == estimated.gas_fee_cap,
        info.gas_premium == estimated.gas_premium,
{
    TransactionGasInfo {
        gas_limit: estimated.gas_limit * (GAS_LIMIT_MULTIPLIER / 100),
        gas_premium: estimated.gas_premium,
        gas_fee_cap: estimated.gas_fee_cap,
    }
}

/// A message and the signature over it. Whoever signed, a key at hand, a
/// hardware device or a node, the signed message has this one form.
#[derive(Debug, Clone, PartialEq, Eq)]
pub struct SignedMessage {
    pub message: Message,
    pub signature: Vec<u8>,
}

/// The signature of a hardware device, which hands out `r` and `s` apart
/// from the recovery id: the recovery id comes last.
pub fn device_signature(rs: &[u8], v: u8) -> (signature: Vec<u8>)
    ensures
        signature@ == rs@.push(v),
{
    let mut signature: Vec<u8> = Vec::new();
    let mut i: usize = 0;
    while i < rs.len()
        invariant
            i <= rs@.len(),
            signature@ == rs@.take(i as int),
        decreases rs@.len() - i,
    {
        signature.push(rs[i]);
        proof {
            assert(signature@ =~= rs@.take(i + 1));
        }
        i = i + 1;
    }
    proof {
        assert(rs@.take(rs@.len() as int) =~= rs@);
    }
    signature.push(v);
    signature
}

/// Where a message stands on its way to the chain.
#[derive(Debug, Clone, PartialEq, Eq)]
pub enum ProposalState {
    /// Drafted: no gas, no signature.
    Draft(Message),
    /// The gas fields are filled from an estimate.
    GasEstimated(Message),
    /// Signed by one of the signing methods.
    Signed(SignedMessage),
    /// Accepted by the message pool. Nothing is waited for at this point.
    Submitted(SignedMessage),
    /// The call that the message carried was seen on the chain.
    Confirmed(SignedMessage),
    /// The call that the message carried was not seen in the attempts
    /// allowed: its final state is unknown.
    Unconfirmed(SignedMessage),
}

/// What happened outside.
#[derive(Debug, Clone, PartialEq, Eq)]
pub enum ProposalEvent {
    /// The node estimated the gas.
    GasEstimate(TransactionGasInfo),
    /// The message was signed.
    Signature(Vec<u8>),
    /// The message pool accepted the message.
    Pushed,
    /// The dispatcher settled the call that the message carried.
    Outcome(TransactionOutcome),
}

/// What is to be done outside for a state.
#[derive(Debug, Clone, Copy, PartialEq, Eq, Structural)]
pub enum ProposalAction {
    /// Ask the node for a gas estimate of the draft, under `MAX_FEE`.
    EstimateGas,
    /// Have the message signed.
    Sign,
    /// Push the signed message to the message pool.
    Push,
    /// Nothing: the message is with the pool, or settled.
    Rest,
}

/// An event that the state does not expect.
#[derive(Debug, Clone, Copy, PartialEq, Eq, Structural)]
pub enum ProposalError {
    OutOfOrder,
}

/// A state as a mathematical value: which state it is, the message, and
/// the signature where there is one.
pub enum StateView {
    Draft(MessageView),
    GasEstimated(MessageView),
    Signed(MessageView, Seq<u8>),
    Submitted(MessageView, Seq<u8>),
    Confirmed(MessageView, Seq<u8>),
    Unconfirmed(MessageView, Seq<u8>),
}

impl View for ProposalState {
    type V = StateView;

    open spec fn view(&self) -> StateView {
        match *self {
            ProposalState::Draft(m) => StateView::Draft(m@),
            ProposalState::GasEstimated(m) => StateView::GasEstimated(m@),
            ProposalState::Signed(s) => StateView::Signed(s.message@, s.signature@),
            ProposalState::Submitted(s) => StateView::Submitted(s.message@, s.signature@),
            ProposalState::Confirmed(s) => StateView::Confirmed(s.message@, s.signature@),
            ProposalState::Unconfirmed(s) => StateView::Unconfirmed(s.message@, s.signature@),
        }
    }
}

/// An event as a mathematical value.
pub enum EventView {
    GasEstimate(TransactionGasInfo),
    Signature(Seq<u8>),
    Pushed,
    Outcome(TransactionOutcome),
}

impl View for ProposalEvent {
    type V = EventView;

    open spec fn view(&self) -> EventView {
        match *self {
            ProposalEvent::GasEstimate(info) => EventView::GasEstimate(info),
            ProposalEvent::Signature(bytes) => EventView::Signature(bytes@),
            ProposalEvent::Pushed => EventView::Pushed,
            ProposalEvent::Outcome(outcome) => EventView::Outcome(outcome),
        }
    }
}

/// The message with its gas fields filled.
pub open spec fn with_gas(m: MessageView, info: TransactionGasInfo) -> MessageView {
    MessageView {
        gas_limit: info.gas_limit,
        gas_fee_cap: info.gas_fee_cap,
        gas_premium: info.gas_premium,
        ..m
    }
}

/// The state that follows `state` on `event`. A draft takes a gas
/// estimate, an estimated message a signature, a signed message the
/// acceptance of the pool, a submitted message the outcome of its call. Any
/// other event is out of order.
pub open spec fn advance_spec(state: StateView, event: EventView) -> Result<
    StateView,
    ProposalError,
> {
    match (state, event) {
        (StateView::Draft(m), EventView::GasEstimate(info)) => Ok(
            StateView::GasEstimated(with_gas(m, info)),
        ),
        (StateView::GasEstimated(m), EventView::Signature(bytes)) => Ok(
            StateView::Signed(m, bytes),
        ),
        (StateView::Signed(m, sig), EventView::Pushed) => Ok(StateView::Submitted(m, sig)),
        (
            StateView::Submitted(m, sig),
            EventView::Outcome(TransactionOutcome::Confirmed(receipt)),
        ) => Ok(StateView::Confirmed(m, sig)),
        (
            StateView::Submitted(m, sig),
            EventView::Outcome(TransactionOutcome::Unconfirmed(hash)),
        ) => Ok(StateView::Unconfirmed(m, sig)),
        _ => Err(ProposalError::OutOfOrder),
    }
}

/// What is to be done outside for `state`.
pub open spec fn next_action_spec(state: StateView) -> ProposalAction {
    match state {
        StateView::Draft(m) => ProposalAction::EstimateGas,
        StateView::GasEstimated(m) => ProposalAction::Sign,
        StateView::Signed(m, sig) => ProposalAction::Push,
        _ => ProposalAction::Rest,
    }
}

/// What is to be done outside for `state`.
pub fn next_action(state: &ProposalState) -> (action: ProposalAction)
    ensures
        action == next_action_spec(state@),
{
    match state {
        ProposalState::Draft(_) => ProposalAction::EstimateGas,
        ProposalState::GasEstimated(_) => ProposalAction::Sign,
        ProposalState::Signed(_) => ProposalAction::Push,
        _ => ProposalAction::Rest,
    }
}

/// The state that follows `state` on `event`.
pub fn advance(state: ProposalState, event: ProposalEvent) -> (res: Result<
    ProposalState,
    ProposalError,
>)
    ensures
        match res {
            Ok(next) => advance_spec(state@, event@) == Ok::<StateView, ProposalError>(next@),
            Err(e) => advance_spec(state@, event@) == Err::<StateView, ProposalError>(e),
        },
{
    match state {
        ProposalState::Draft(message) => match event {
            ProposalEvent::GasEstimate(info) => {
                let mut message = message;
                message.gas_limit = info.gas_limit;
                message.gas_fee_cap = info.gas_fee_cap;
                message.gas_premium = info.gas_premium;
                Ok(ProposalState::GasEstimated(message))
            },
            _ => Err(ProposalError::OutOfOrder),
        },
        ProposalState::GasEstimated(message) => match event {
            ProposalEvent::Signature(signature) => Ok(
                ProposalState::Signed(SignedMessage { message, signature }),
            ),
            _ => Err(ProposalError::OutOfOrder),
        },
        ProposalState::Signed(signed) => match event {
            ProposalEvent::Pushed => Ok(ProposalState::Submitted(signed)),
            _ => Err(ProposalError::OutOfOrder),
        },
        ProposalState::Submitted(signed) => match event {
            ProposalEvent::Outcome(TransactionOutcome::Confirmed(_)) => Ok(
                ProposalState::Confirmed(signed),
            ),
            ProposalEvent::Outcome(TransactionOutcome::Unconfirmed(_)) => Ok(
                ProposalState::Unconfirmed(signed),
            ),
            _ => Err(ProposalError::OutOfOrder),
        },
        _ => Err(ProposalError::OutOfOrder),
    }
}

} // verus!
