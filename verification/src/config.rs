//! Configuration and command-line data: the plain shapes the surrounding
//! program fills in from its configuration file and arguments, and the
//! mapping from a configuration file to an application builder.

use vstd::prelude::*;

verus! {

/// The settings read from the configuration file.
#[derive(Debug, Clone)]
pub struct ConfigFile {
    pub port: u16,
    pub contract_address: String,
    pub node_url: String,
    pub database_path: String,
    pub chain_id: u16,
    pub fee: u32,
    pub ip_address: String,
}

/// Everything needed to build the application's shared state.
#[derive(Debug, Clone)]
pub struct AppDataBuilder {
    pub port: u16,
    pub contract_address: String,
    pub node_url: String,
    pub chain_id: u16,
    pub fee: u32,
    pub ip_address: String,
    pub database_path: String,
    pub password: Option<String>,
}

impl ConfigFile {
    /// Turn the configuration into an application builder. The database path
    /// is handed in already resolved against the configuration file's
    /// directory; every other field carries over unchanged.
    pub fn into_app_builder(self, password: Option<String>, database_path: String) -> (builder:
        AppDataBuilder)
        ensures
            builder.port == self.port,
            builder.contract_address@ == self.contract_address@,
            builder.node_url@ == self.node_url@,
            builder.chain_id == self.chain_id,
            builder.fee == self.fee,
            builder.ip_address@ == self.ip_address@,
            builder.database_path@ == database_path@,
            builder.password == password,
    {
        AppDataBuilder {
            port: self.port,
            contract_address: self.contract_address,
            node_url: self.node_url,
            chain_id: self.chain_id,
            fee: self.fee,
            ip_address: self.ip_address,
            database_path,
            password,
        }
    }
}

/// The command-line arguments of the distribution client.
#[derive(Debug, Clone)]
pub struct Args {
    /// The path to the configuration file.
    pub config: String,
    /// The optional password for an encrypted private key.
    pub password: Option<String>,
    pub command: Command,
}

/// The subcommands of the distribution client.
#[derive(Debug, Clone)]
pub enum Command {
    /// Generate a new wallet.
    GenerateWallet { plaintext: bool, password: Option<String> },
    /// Import an existing wallet.
    ImportWallet { key: String, plaintext: bool, password: Option<String> },
    /// Export the wallet's address.
    ExportAddress,
    /// Export the private key.
    ExportPrivateKey { plaintext: bool },
    /// Start distributing songs.
    Run,
    /// Download songs from another distributor.
    Download { ids: Vec<String>, distribute: bool },
    /// Add songs from the file-system.
    AddFromPath { paths: Vec<String>, distribute: bool },
    Remove { song_ids: Vec<String> },
    StopDistribution { song_ids: Vec<String> },
    StartDistribution { song_ids: Vec<String> },
    DownloadLocal {
        distributor_port: u16,
        song_id: String,
        index: usize,
        chunks: usize,
        file: String,
    },
    CreateAccount { name: String, description: Option<String> },
    DeleteAccount,
    Deposit { amount: u64 },
    Withdraw { amount: u64 },
}

} // verus!
