use mkt4u_blockchain::campaigns::CampaignMetrics;
use mkt4u_blockchain::rewards::{
    calculate_potential_rewards, check_reward_eligibility, check_reward_eligibility_now,
    claim_reward_payload, create_reward_program_payload, decode_reward_program,
    encode_reward_program, encode_reward_type, read_reward_type, RewardCriteria, RewardProgram,
    RewardType, UserReward,
};

fn sample_program() -> RewardProgram {
    RewardProgram {
        id: "loyalty-program-1".to_string(),
        name: "Monthly Engagement Rewards".to_string(),
        description: "Earn points for campaign engagement".to_string(),
        reward_type: RewardType::Points { amount: 100 },
        total_pool: 10000,
        remaining_pool: 8500,
        start_time: 1_700_000_000 - 86400 * 30,
        end_time: 1_700_000_000 + 86400 * 30,
        criteria: RewardCriteria {
            min_engagement: 100,
            min_conversions: 5,
            min_spend: 50000,
            requires_verification: false,
        },
        is_active: true,
    }
}

fn sample_metrics() -> CampaignMetrics {
    CampaignMetrics {
        views: 150,
        clicks: 15,
        conversions: 8,
        total_spent: 75000,
        roi: 2_500_000,
    }
}

#[test]
fn test_reward_eligibility() {
    let program = sample_program();
    let now = 1_700_000_000i64;

    let user_metrics = sample_metrics();
    assert!(check_reward_eligibility(&program, &user_metrics, now));

    let poor_metrics = CampaignMetrics {
        total_spent: 10000,
        ..user_metrics
    };
    assert!(!check_reward_eligibility(&program, &poor_metrics, now));
}

#[test]
fn eligibility_needs_every_criterion_and_the_window() {
    let program = sample_program();
    let now = 1_700_000_000i64;
    let metrics = sample_metrics();

    let few_conversions = CampaignMetrics { conversions: 4, ..metrics };
    assert!(!check_reward_eligibility(&program, &few_conversions, now));

    let low_engagement = CampaignMetrics { views: 50, clicks: 40, ..metrics };
    assert!(!check_reward_eligibility(&program, &low_engagement, now));

    let mut inactive = sample_program();
    inactive.is_active = false;
    assert!(!check_reward_eligibility(&inactive, &metrics, now));

    assert!(!check_reward_eligibility(&program, &metrics, program.end_time + 1));
    assert!(!check_reward_eligibility(&program, &metrics, program.start_time - 1));
    assert!(check_reward_eligibility(&program, &metrics, program.start_time));
    assert!(check_reward_eligibility(&program, &metrics, program.end_time));
}

#[test]
fn test_reward_type_serialization() {
    let reward = RewardType::SOL { amount: 1000000 };
    let serialized = encode_reward_type(&reward).unwrap();
    let (deserialized, consumed) = read_reward_type(serialized.as_slice(), 0).unwrap();
    assert_eq!(consumed, serialized.len());

    match deserialized {
        RewardType::SOL { amount } => assert_eq!(amount, 1000000),
        _ => panic!("Incorrect deserialization"),
    }
}

#[test]
fn reward_program_round_trip() {
    let program = sample_program();
    let encoded = encode_reward_program(&program).unwrap();
    let decoded = decode_reward_program(encoded.as_slice()).unwrap();
    assert_eq!(decoded, program);
}

#[test]
fn reward_program_round_trip_token_and_nft() {
    let mut program = sample_program();
    program.reward_type = RewardType::Token {
        mint: "So11111111111111111111111111111111111111112".to_string(),
        amount: 42,
    };
    let encoded = encode_reward_program(&program).unwrap();
    assert_eq!(decode_reward_program(encoded.as_slice()).unwrap(), program);

    program.reward_type = RewardType::NFT { collection: "genesis".to_string() };
    let encoded = encode_reward_program(&program).unwrap();
    assert_eq!(decode_reward_program(encoded.as_slice()).unwrap(), program);
}

#[test]
fn reward_program_decode_rejects_bad_variant_tag() {
    let mut encoded = encode_reward_program(&sample_program()).unwrap();
    // The variant tag of the reward kind sits after the three length-prefixed
    // strings; corrupt it to an unknown value.
    let offset = 4 + 17 + 4 + 26 + 4 + 35;
    assert_eq!(encoded[offset], 3);
    encoded[offset] = 9;
    assert!(decode_reward_program(encoded.as_slice()).is_err());
}

#[test]
fn create_program_payload_uses_discriminator() {
    let payload = create_reward_program_payload(&sample_program()).unwrap();
    assert_eq!(payload[0], 3);
}

#[test]
fn claim_payload_is_discriminator_and_user_bytes() {
    let payload = claim_reward_payload("test-user");
    let mut expected = vec![4u8];
    expected.extend_from_slice("test-user".as_bytes());
    assert_eq!(payload, expected);
}

#[test]
fn potential_rewards_filters_by_eligibility() {
    let now = 1_700_000_000i64;
    let eligible = sample_program();
    let mut too_demanding = sample_program();
    too_demanding.id = "whale-program".to_string();
    too_demanding.criteria.min_spend = 1_000_000;
    let mut inactive = sample_program();
    inactive.id = "paused-program".to_string();
    inactive.is_active = false;

    let programs = vec![eligible, too_demanding, inactive];
    let rewards = calculate_potential_rewards(&programs, &sample_metrics(), now);
    assert_eq!(rewards.len(), 1);
    assert_eq!(rewards[0].0, "loyalty-program-1");
    match rewards[0].1 {
        RewardType::Points { amount } => assert_eq!(amount, 100),
        _ => panic!("reward kind must be carried through unchanged"),
    }
}

#[test]
fn eligibility_at_the_current_time_matches_the_window() {
    // A program whose window comfortably surrounds the present.
    let mut program = sample_program();
    program.start_time = 0;
    program.end_time = i64::MAX;
    assert!(check_reward_eligibility_now(&program, &sample_metrics()));
    // One whose window is long past.
    program.end_time = 1;
    assert!(!check_reward_eligibility_now(&program, &sample_metrics()));
}

#[test]
fn unclaimed_means_no_claim_timestamp() {
    let mut reward = UserReward {
        user_id: "test-user".to_string(),
        program_id: "loyalty-program-1".to_string(),
        reward_type: RewardType::Points { amount: 100 },
        earned_at: 0,
        claimed_at: None,
        transaction_signature: None,
    };
    assert!(reward.is_unclaimed());
    reward.claimed_at = Some(5);
    assert!(!reward.is_unclaimed());
}
