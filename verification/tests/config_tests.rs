use mkt4u_blockchain::codec::{instruction_kind, InstructionKind};
use mkt4u_blockchain::errors::BlockchainError;
use mkt4u_blockchain::BlockchainConfig;

#[test]
fn test_config_creation() {
    let config = BlockchainConfig::default();
    assert_eq!(config.network, "mainnet-beta");
    assert_eq!(config.rpc_url, "https://api.mainnet-beta.solana.com");
}

#[test]
fn default_config_has_placeholder_program_and_no_payer() {
    let config = BlockchainConfig::default();
    assert_eq!(config.program_id, "11111111111111111111111111111111");
    assert!(config.payer_keypair.is_none());
}

#[test]
fn instruction_dispatch_covers_the_five_operations() {
    assert_eq!(instruction_kind(0), Some(InstructionKind::CreateCampaign));
    assert_eq!(instruction_kind(1), Some(InstructionKind::UpdateMetrics));
    assert_eq!(instruction_kind(2), Some(InstructionKind::CloseCampaign));
    assert_eq!(instruction_kind(3), Some(InstructionKind::CreateRewardProgram));
    assert_eq!(instruction_kind(4), Some(InstructionKind::ClaimReward));
    assert_eq!(instruction_kind(5), None);
    assert_eq!(instruction_kind(255), None);
}

#[test]
fn error_messages_carry_prefix_and_detail() {
    let e = BlockchainError::RpcError("connection refused".to_string());
    assert_eq!(e.message(), "RPC error: connection refused");
    let e = BlockchainError::AccountNotFound("abc".to_string());
    assert_eq!(e.message(), "Account not found: abc");
    assert_eq!(BlockchainError::InsufficientFunds.message(), "Insufficient funds");
    let e = BlockchainError::SerializationError("bad".to_string());
    assert_eq!(e.message(), "Serialization error: bad");
}
