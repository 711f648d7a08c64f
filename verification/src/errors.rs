//! Error kinds surfaced by this layer. Every failed operation returns one of
//! these tagged values; nothing is retried locally.

use vstd::prelude::*;

verus! {

use vstd::string::StringExecFns;

/// The distinguished error conditions of the client layer. Variants carry a
/// human-readable detail message where one is available.
#[derive(Debug, Clone)]
pub enum BlockchainError {
    RpcError(String),
    TransactionError(String),
    InvalidKeypair(String),
    InvalidPubkey(String),
    SerializationError(String),
    ProgramError(String),
    AccountNotFound(String),
    InsufficientFunds,
    NetworkError(String),
}

/// The fixed text that introduces each error variant's message.
pub open spec fn spec_error_prefix(e: &BlockchainError) -> Seq<char> {
    match e {
        BlockchainError::RpcError(_) => "RPC error: "@,
        BlockchainError::TransactionError(_) => "Transaction error: "@,
        BlockchainError::InvalidKeypair(_) => "Invalid keypair: "@,
        BlockchainError::InvalidPubkey(_) => "Invalid public key: "@,
        BlockchainError::SerializationError(_) => "Serialization error: "@,
        BlockchainError::ProgramError(_) => "Program error: "@,
        BlockchainError::AccountNotFound(_) => "Account not found: "@,
        BlockchainError::InsufficientFunds => "Insufficient funds"@,
        BlockchainError::NetworkError(_) => "Network error: "@,
    }
}

/// The detail text carried by the variant (empty where the variant has none).
pub open spec fn spec_error_detail(e: &BlockchainError) -> Seq<char> {
    match e {
        BlockchainError::RpcError(s) => s@,
        BlockchainError::TransactionError(s) => s@,
        BlockchainError::InvalidKeypair(s) => s@,
        BlockchainError::InvalidPubkey(s) => s@,
        BlockchainError::SerializationError(s) => s@,
        BlockchainError::ProgramError(s) => s@,
        BlockchainError::AccountNotFound(s) => s@,
        BlockchainError::InsufficientFunds => Seq::<char>::empty(),
        BlockchainError::NetworkError(s) => s@,
    }
}

impl BlockchainError {
    /// Human-readable message: the variant's fixed prefix followed by its
    /// detail text.
    pub fn message(&self) -> (r: String)
        ensures
            r@ == spec_error_prefix(self) + spec_error_detail(self),
    {
        let prefix: &str = match self {
            BlockchainError::RpcError(_) => "RPC error: ",
            BlockchainError::TransactionError(_) => "Transaction error: ",
            BlockchainError::InvalidKeypair(_) => "Invalid keypair: ",
            BlockchainError::InvalidPubkey(_) => "Invalid public key: ",
            BlockchainError::SerializationError(_) => "Serialization error: ",
            BlockchainError::ProgramError(_) => "Program error: ",
            BlockchainError::AccountNotFound(_) => "Account not found: ",
            BlockchainError::InsufficientFunds => "Insufficient funds",
            BlockchainError::NetworkError(_) => "Network error: ",
        };
        let mut out = String::from_str(prefix);
        match self {
            BlockchainError::RpcError(s) => out.append(s.as_str()),
            BlockchainError::TransactionError(s) => out.append(s.as_str()),
            BlockchainError::InvalidKeypair(s) => out.append(s.as_str()),
            BlockchainError::InvalidPubkey(s) => out.append(s.as_str()),
            BlockchainError::SerializationError(s) => out.append(s.as_str()),
            BlockchainError::ProgramError(s) => out.append(s.as_str()),
            BlockchainError::AccountNotFound(s) => out.append(s.as_str()),
            BlockchainError::InsufficientFunds => (),
            BlockchainError::NetworkError(s) => out.append(s.as_str()),
        }
        proof {
            assert(out@ =~= spec_error_prefix(self) + spec_error_detail(self));
        }
        out
    }
}

} // verus!
