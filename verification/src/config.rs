//! The configuration of the command line tool and how the command line overrides it.

use vstd::prelude::*;

use crate::address::{base58_pubkey, parse_pubkey};
use crate::error::CliError;

verus! {

/// The settings the commands run with.
#[derive(Debug)]
pub struct Config {
    /// RPC URL for Solana cluster
    pub rpc_url: String,
    /// Mosaic program ID
    pub mosaic_id: Option<String>,
    /// Default payer keypair path
    pub payer_keypair: Option<String>,
    /// Destination program ID
    pub destination_program: Option<String>,
}

/// The options of the command line that override the configuration.
#[derive(Debug)]
pub struct Cli {
    pub rpc_url: Option<String>,
    pub mosaic_id: Option<String>,
}

/// The cluster the tool talks to unless told otherwise.
pub open spec fn spec_default_rpc_url() -> Seq<char> {
    "https://api.mainnet-beta.solana.com"@
}

/// The URL of the mainnet cluster.
pub fn default_rpc_url() -> (r: String)
    ensures
        r@ == spec_default_rpc_url(),
{
    "https://api.mainnet-beta.solana.com".to_owned()
}

impl Default for Config {
    /// The mainnet cluster and nothing else set.
    fn default() -> (r: Config)
        ensures
            r.rpc_url@ == spec_default_rpc_url(),
            r.mosaic_id is None,
            r.payer_keypair is None,
            r.destination_program is None,
    {
        Config {
            rpc_url: default_rpc_url(),
            mosaic_id: None,
            payer_keypair: None,
            destination_program: None,
        }
    }
}

/// The configuration with each option given on the command line in place of its
/// configured value, and the rest as configured.
pub open spec fn spec_merged(config: Config, cli: Cli) -> Config {
    Config {
        rpc_url: match cli.rpc_url {
            Some(u) => u,
            None => config.rpc_url,
        },
        mosaic_id: match cli.mosaic_id {
            Some(m) => Some(m),
            None => config.mosaic_id,
        },
        payer_keypair: config.payer_keypair,
        destination_program: config.destination_program,
    }
}

/// Lets the RPC URL and the program id given on the command line override the
/// configured ones.
pub fn merge_cli_config(config: &mut Config, cli: &Cli)
    ensures
        *final(config) == spec_merged(*old(config), *cli),
{
    if let Some(rpc_url) = &cli.rpc_url {
        config.rpc_url = rpc_url.clone();
    }
    if let Some(mosaic_id) = &cli.mosaic_id {
        config.mosaic_id = Some(mosaic_id.clone());
    }
}

/// Merging the same command line twice changes nothing the first merge did not, and an
/// option given on the command line wins over any configured value.
pub proof fn lemma_merge_idempotent(config: Config, cli: Cli)
    ensures
        spec_merged(spec_merged(config, cli), cli) == spec_merged(config, cli),
        cli.rpc_url matches Some(u) ==> spec_merged(config, cli).rpc_url == u,
        cli.mosaic_id matches Some(m) ==> spec_merged(config, cli).mosaic_id == Some(m),
{
}

/// The Mosaic program id that the configuration names.
pub open spec fn spec_mosaic_id(config: Config) -> Result<Seq<u8>, CliError> {
    match config.mosaic_id {
        None => Err(CliError::MosaicIdNotConfigured),
        Some(s) => match base58_pubkey(s@) {
            Some(k) => Ok(k),
            None => Err(CliError::InvalidMosaicId),
        },
    }
}

/// A key, or why there is none, with the key taken by its bytes.
pub open spec fn key_result_view(r: Result<[u8; 32], CliError>) -> Result<Seq<u8>, CliError> {
    match r {
        Ok(k) => Ok(k@),
        Err(e) => Err(e),
    }
}

/// The Mosaic program id of the configuration.
pub fn get_mosaic_id(config: &Config) -> (r: Result<[u8; 32], CliError>)
    ensures
        key_result_view(r) == spec_mosaic_id(*config),
{
    match &config.mosaic_id {
        None => Err(CliError::MosaicIdNotConfigured),
        Some(s) => match parse_pubkey(s.as_str()) {
            Some(k) => Ok(k),
            None => Err(CliError::InvalidMosaicId),
        },
    }
}

/// The keypair file to sign with: the one given to the command, else the configured one.
pub open spec fn spec_keypair_path(arg: Option<String>, config: Config) -> Result<String, CliError> {
    match arg {
        Some(p) => Ok(p),
        None => match config.payer_keypair {
            Some(p) => Ok(p),
            None => Err(CliError::KeypairNotSpecified),
        },
    }
}

/// The keypair file to sign with: the one given to the command, else the configured one.
pub fn resolve_keypair_path(arg: Option<String>, config: &Config) -> (r: Result<String, CliError>)
    ensures
        r == spec_keypair_path(arg, *config),
{
    match arg {
        Some(p) => Ok(p),
        None => match &config.payer_keypair {
            Some(p) => Ok(p.clone()),
            None => Err(CliError::KeypairNotSpecified),
        },
    }
}

} // verus!
