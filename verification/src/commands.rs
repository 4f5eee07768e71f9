//! The command line as values: the commands, their options, and what the
//! choice of a command decides.

use vstd::prelude::*;

use crate::multisig::SigningOptions;

verus! {

/// The address of the node that is asked where no other is given.
pub const DEFAULT_RPC_URL: &'static str = "https://api.node.glif.io/rpc/v1";

/// The number of attempts to get a receipt where no other is given.
pub const DEFAULT_RETRIES: usize = 10;

/// The account on a hardware device where no other is given.
pub const DEFAULT_LEDGER_ACCOUNT: u32 = 0;

/// What is shown when the program starts.
pub const BANNER: &'static str = "
            _|_|_|              _|                                    
            _|          _|_|_|  _|_|_|_|  _|    _|  _|  _|_|  _|_|_|    
              _|_|    _|    _|    _|      _|    _|  _|_|      _|    _|  
                  _|  _|    _|    _|      _|    _|  _|        _|    _|  
            _|_|_|      _|_|_|      _|_|    _|_|_|  _|        _|    _|      

        -----------------------------------------------------------
        Saturn smart contracts 🪐.
        -----------------------------------------------------------
        ";

/// A command and its options.
#[derive(Debug, Clone, PartialEq)]
#[allow(inconsistent_fields)]
pub enum Commands {
    /// Deploys a new payout factory contract.
    Deploy,
    /// Creates a new payout from a list of payees.
    NewPayout { factory_addr: String, payout_csv: Option<String>, db_deploy: bool, date: String },
    /// Claims all available funds for an address.
    Claim { factory_addr: String, addr_to_claim: String, method: Option<SigningOptions> },
    /// Funds a factory contract.
    Fund { factory_addr: String, amount: i128 },
    /// Writes the interface of the factory contract to a file.
    WriteAbi { path: String },
    /// Generates the payout lists of a month.
    GenerateMonthlyPayout { date: String, factory_address: String },
    /// Shows the state and the pending transactions of a multisig actor.
    MultisigInspect { actor_id: String },
    /// Shows the payouts of an address.
    InspectEarnings { address: String, factory_address: String },
    /// Proposes a new payout to a multisig actor.
    ProposeNewPayout {
        actor_address: String,
        receiver_address: String,
        payout_csv: Option<String>,
        db_deploy: bool,
        date: String,
        method: SigningOptions,
    },
    /// Cancels a proposed payout.
    CancelPayout { actor_address: String, transaction_id: String, method: SigningOptions },
    /// Cancels all proposed payouts.
    CancelAll { actor_address: String, method: SigningOptions },
    /// Approves a proposed payout.
    ApproveNewPayout { actor_address: String, transaction_id: String, method: SigningOptions },
    /// Approves all proposed payouts.
    ApproveAll { actor_address: String, method: SigningOptions },
    /// Grants the admin role of a factory contract to an address.
    GrantAdmin { address: String, factory_addr: String },
    /// Revokes the admin role of a factory contract from an address.
    RevokeAdmin { address: String, factory_addr: String },
}

/// The command line.
#[derive(Debug, Clone, PartialEq)]
pub struct Cli {
    pub command: Commands,
    /// Path to the wallet mnemonic.
    pub secret: Option<String>,
    /// Address of the node.
    pub rpc_url: String,
    /// Number of attempts to get the receipt of a transaction.
    pub retries: usize,
    /// Account index on a hardware device.
    pub ledger_account: u32,
}

/// Why a command failed.
#[derive(Debug, Clone, Copy, PartialEq, Eq, Structural)]
pub enum CLIError {
    /// The receipt of a deployment names no contract.
    ContractNotDeployed,
}

/// Who signs what a command sends.
#[derive(Debug, Clone, Copy, PartialEq, Eq, Structural)]
pub enum Signing {
    /// Transactions, by the wallet of the mnemonic at `secret`.
    Wallet,
    /// Transactions, by a hardware device.
    Device,
    /// Messages, by the method named.
    Message(SigningOptions),
    /// The command sends nothing.
    Unsigned,
}

/// Who signs transactions: the wallet where a mnemonic is given, else a
/// hardware device.
pub open spec fn transaction_signing(has_secret: bool) -> Signing {
    if has_secret {
        Signing::Wallet
    } else {
        Signing::Device
    }
}

/// Who signs what `command` sends, given whether a mnemonic is at hand.
/// Funding always takes the wallet.
pub open spec fn signing_spec(command: Commands, has_secret: bool) -> Signing {
    match command {
        Commands::Deploy => transaction_signing(has_secret),
        Commands::NewPayout { .. } => transaction_signing(has_secret),
        Commands::Claim { method: Some(m), .. } => Signing::Message(m),
        Commands::Claim { method: None, .. } => transaction_signing(has_secret),
        Commands::Fund { .. } => Signing::Wallet,
        Commands::WriteAbi { .. } => Signing::Unsigned,
        Commands::GenerateMonthlyPayout { .. } => Signing::Unsigned,
        Commands::MultisigInspect { .. } => Signing::Unsigned,
        Commands::InspectEarnings { .. } => Signing::Unsigned,
        Commands::ProposeNewPayout { method, .. } => Signing::Message(method),
        Commands::CancelPayout { method, .. } => Signing::Message(method),
        Commands::CancelAll { method, .. } => Signing::Message(method),
        Commands::ApproveNewPayout { method, .. } => Signing::Message(method),
        Commands::ApproveAll { method, .. } => Signing::Message(method),
        Commands::GrantAdmin { .. } => transaction_signing(has_secret),
        Commands::RevokeAdmin { .. } => transaction_signing(has_secret),
    }
}

impl Cli {
    /// The command line of `command`, each option that is not given at its
    /// default.
    pub fn create(
        command: Commands,
        secret: Option<String>,
        rpc_url: Option<String>,
        retries: Option<usize>,
        ledger_account: Option<u32>,
    ) -> (cli: Cli)
        ensures
            cli.command == command,
            cli.secret == secret,
            cli.rpc_url@ == (match rpc_url {
                Some(url) => url@,
                None => DEFAULT_RPC_URL@,
            }),
            cli.retries == (match retries {
                Some(n) => n,
                None => DEFAULT_RETRIES,
            }),
            cli.ledger_account == (match ledger_account {
                Some(n) => n,
                None => DEFAULT_LEDGER_ACCOUNT,
            }),
    {
        let rpc_url: String = match rpc_url {
            Some(url) => url,
            None => DEFAULT_RPC_URL.to_owned(),
        };
        let retries: usize = match retries {
            Some(n) => n,
            None => DEFAULT_RETRIES,
        };
        let ledger_account: u32 = match ledger_account {
            Some(n) => n,
            None => DEFAULT_LEDGER_ACCOUNT,
        };
        Cli { command, secret, rpc_url, retries, ledger_account }
    }

    /// Who signs what the command sends.
    pub fn signing(&self) -> (res: Signing)
        ensures
            res == signing_spec(self.command, self.secret is Some),
    {
        let has_secret: bool = self.secret.is_some();
        let for_transactions: Signing = if has_secret {
            Signing::Wallet
        } else {
            Signing::Device
        };
        match &self.command {
            Commands::Deploy => for_transactions,
            Commands::NewPayout { .. } => for_transactions,
            Commands::Claim { method: Some(m), .. } => Signing::Message(*m),
            Commands::Claim { method: None, .. } => for_transactions,
            Commands::Fund { .. } => Signing::Wallet,
            Commands::WriteAbi { .. } => Signing::Unsigned,
            Commands::GenerateMonthlyPayout { .. } => Signing::Unsigned,
            Commands::MultisigInspect { .. } => Signing::Unsigned,
            Commands::InspectEarnings { .. } => Signing::Unsigned,
            Commands::ProposeNewPayout { method, .. } => Signing::Message(*method),
            Commands::CancelPayout { method, .. } => Signing::Message(*method),
            Commands::CancelAll { method, .. } => Signing::Message(*method),
            Commands::ApproveNewPayout { method, .. } => Signing::Message(*method),
            Commands::ApproveAll { method, .. } => Signing::Message(*method),
            Commands::GrantAdmin { .. } => for_transactions,
            Commands::RevokeAdmin { .. } => for_transactions,
        }
    }
}

/// Where the payout list of a command comes from.
#[derive(Debug, Clone, PartialEq, Eq)]
pub enum PayoutSource {
    /// From the payments database.
    Database,
    /// From the payout list at this path.
    Csv(String),
    /// Neither was asked for: the command cannot run.
    Missing,
}

/// Where the payout list comes from: the database where that was asked
/// for, else the list at the path given.
pub fn get_payout_data(db_deploy: bool, csv_path: Option<String>) -> (source: PayoutSource)
    ensures
        source == (if db_deploy {
            PayoutSource::Database
        } else {
            match csv_path {
                Some(path) => PayoutSource::Csv(path),
                None => PayoutSource::Missing,
            }
        }),
{
    if db_deploy {
        PayoutSource::Database
    } else {
        match csv_path {
            Some(path) => PayoutSource::Csv(path),
            None => PayoutSource::Missing,
        }
    }
}

/// The text that is shown when the program starts.
pub fn banner() -> (text: String)
    ensures
        text@ == BANNER@,
{
    BANNER.to_owned()
}

} // verus!
