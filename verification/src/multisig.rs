//! What a node reports of a multisig actor and of its pending transactions,
//! and how the fields of those reports are shown.

use vstd::prelude::*;

verus! {

/// A link to the details of a transaction.
#[derive(Default, Debug, Clone, PartialEq)]
pub struct TransactionDetails {
    pub field: String,
}

/// A link to the table of pending transactions.
#[derive(Default, Debug, Clone, PartialEq)]
pub struct PendingTxns {
    pub field: String,
}

/// A link to the code of an actor.
#[derive(Default, Debug, Clone, PartialEq)]
pub struct Code {
    pub field: String,
}

/// A pending transaction of a multisig actor.
#[derive(Default, Debug, Clone, PartialEq)]
pub struct MultiSigTransaction {
    pub id: u64,
    pub to: String,
    pub value: String,
    pub method: u64,
    pub params: Option<String>,
    pub approved: Vec<String>,
}

/// The state of a multisig actor.
#[derive(Default, Debug, Clone, PartialEq)]
pub struct State {
    pub start_epoch: u64,
    pub unlock_duration: u64,
    pub pending_txns: PendingTxns,
    pub signers: Vec<String>,
    pub init_bal: String,
    pub threshold: u64,
    pub next_txn_id: u64,
}

/// A multisig actor as a node reports it.
#[derive(Default, Debug, Clone, PartialEq)]
pub struct MultiSigActor {
    pub balance: String,
    pub code: Code,
    pub state: State,
}

/// How a message is signed.
#[derive(Debug, Clone, Copy, PartialEq, Eq, Structural)]
pub enum SigningOptions {
    /// By a node that holds the key.
    Lotus,
    /// By a hardware device.
    Ledger,
    /// By a private key that the operator types in.
    Local,
}

/// Why a command failed.
#[derive(Debug, Clone, Copy, PartialEq, Eq, Structural)]
pub enum CLIError {
    /// The receipt of a deployment names no contract.
    ContractNotDeployed,
}

impl CLIError {
    /// The message that is shown for the error.
    pub fn message(&self) -> (text: String)
        ensures
            text@ == "contract failed to deploy"@,
    {
        "contract failed to deploy".to_owned()
    }
}

/// What `{:?}` writes for a list of strings: the strings quoted and escaped,
/// between square brackets.
pub uninterp spec fn debug_list(items: Seq<Seq<char>>) -> Seq<char>;

/// What `{:?}` writes for a string: the string quoted and escaped.
pub uninterp spec fn debug_string(text: Seq<char>) -> Seq<char>;

/// The strings of a list as mathematical values.
pub open spec fn texts(items: Seq<String>) -> Seq<Seq<char>> {
    items.map_values(|s: String| s@)
}

/// `format!` with `{:?}` on a list of strings: the result is the text that
/// `debug_list` names for the strings.
#[verifier::external_body]
fn debug_of_list(items: &Vec<String>) -> (text: String)
    ensures
        text@ == debug_list(texts(items@)),
{
    format!("{:?}", items)
}

/// `format!` with `{:?}` on a string: the result is the text that
/// `debug_string` names for it.
#[verifier::external_body]
fn debug_of_string(item: &String) -> (text: String)
    ensures
        text@ == debug_string(item@),
{
    format!("{:?}", item)
}

/// A list as a table shows it: nothing for an empty list, else the list as
/// `{:?}` writes it.
pub fn display_vector(v: &Vec<String>) -> (text: String)
    ensures
        text@ == (if v@.len() == 0 {
            Seq::<char>::empty()
        } else {
            debug_list(texts(v@))
        }),
{
    if v.len() != 0 {
        debug_of_list(v)
    } else {
        String::new()
    }
}

/// An optional string as a table shows it: nothing where there is none, else
/// the string as `{:?}` writes it.
pub fn display_option(v: &Option<String>) -> (text: String)
    ensures
        text@ == (match v {
            Some(x) => debug_string(x@),
            None => Seq::<char>::empty(),
        }),
{
    match v {
        Some(x) => debug_of_string(x),
        None => String::new(),
    }
}

/// The link to the pending transactions as a table shows it.
pub fn display_txns(v: &PendingTxns) -> (text: String)
    ensures
        text@ == debug_string(v.field@),
{
    debug_of_string(&v.field)
}

} // verus!
