//! Client-side integration layer for a marketing-campaign platform that
//! records campaign, analytics, and reward data against a blockchain network.
//!
//! This crate holds the verified core: the data model, the binary wire
//! codec, analytics aggregation and prediction, and reward eligibility.
//! Network transport, transaction signing and environment bootstrap live
//! in the surrounding application code.

use vstd::prelude::*;

pub mod analytics;
pub mod campaigns;
pub mod codec;
pub mod errors;
pub mod rewards;

verus! {

use vstd::string::StringExecFns;

/// Connection settings for the chain gateway: RPC endpoint, network name,
/// the on-chain program address (base-58 text), and optional signing-key
/// material.
#[derive(Debug, Clone)]
pub struct BlockchainConfig {
    pub rpc_url: String,
    pub network: String,
    pub program_id: String,
    pub payer_keypair: Option<String>,
}

impl Default for BlockchainConfig {
    /// The documented defaults: a public mainnet endpoint, the `mainnet-beta`
    /// network, a placeholder program address, and no signing identity.
    fn default() -> (r: Self)
        ensures
            r.rpc_url@ == "https://api.mainnet-beta.solana.com"@,
            r.network@ == "mainnet-beta"@,
            r.program_id@ == "11111111111111111111111111111111"@,
            r.payer_keypair is None,
    {
        BlockchainConfig {
            rpc_url: String::from_str("https://api.mainnet-beta.solana.com"),
            network: String::from_str("mainnet-beta"),
            program_id: String::from_str("11111111111111111111111111111111"),
            payer_keypair: None,
        }
    }
}

} // verus!
