use mkt4u_blockchain::campaigns::{
    campaign_from_request, close_campaign_payload, create_campaign_payload, decode_campaign_data,
    decode_campaign_metrics, encode_campaign_data, update_metrics_payload, CampaignData,
    CampaignMetrics,
};
use mkt4u_blockchain::errors::BlockchainError;

fn sample_campaign() -> CampaignData {
    CampaignData {
        id: "test-campaign-1".to_string(),
        title: "Test Campaign".to_string(),
        creator: "test-creator".to_string(),
        target_amount: 1000000,
        current_amount: 0,
        start_time: 1_700_000_000,
        end_time: 1_700_000_000 + 86400 * 30,
        is_active: true,
        metadata_uri: "https://example.com/metadata".to_string(),
    }
}

#[test]
fn test_campaign_creation() {
    let campaign_data = sample_campaign();
    let payload = create_campaign_payload(&campaign_data).unwrap();
    assert_eq!(payload[0], 0);
    assert!(payload.len() > 1);
}

#[test]
fn campaign_round_trip() {
    let campaign = sample_campaign();
    let encoded = encode_campaign_data(&campaign).unwrap();
    let decoded = decode_campaign_data(encoded.as_slice()).unwrap();
    assert_eq!(decoded, campaign);
}

#[test]
fn campaign_round_trip_unicode_and_inactive() {
    let mut campaign = sample_campaign();
    campaign.title = "Launch \u{00e9}t\u{00e9} \u{1F680}".to_string();
    campaign.is_active = false;
    campaign.start_time = -5;
    let encoded = encode_campaign_data(&campaign).unwrap();
    let decoded = decode_campaign_data(encoded.as_slice()).unwrap();
    assert_eq!(decoded, campaign);
}

#[test]
fn metrics_round_trip() {
    let metrics = CampaignMetrics {
        views: 1500,
        clicks: 150,
        conversions: 15,
        total_spent: 500000,
        roi: 2_500_000,
    };
    let payload = update_metrics_payload(&metrics);
    assert_eq!(payload[0], 1);
    let decoded = decode_campaign_metrics(&payload[1..]).unwrap();
    assert_eq!(decoded, metrics);
}

#[test]
fn close_payload_is_discriminator_only() {
    assert_eq!(close_campaign_payload(), vec![2u8]);
}

#[test]
fn decode_rejects_malformed_bytes() {
    let garbage = vec![255u8, 1, 2, 3];
    match decode_campaign_data(&garbage) {
        Err(BlockchainError::SerializationError(_)) => (),
        _ => panic!("malformed bytes must be rejected with a serialization error"),
    }
    // A valid record with a trailing byte is refused too.
    let mut encoded = encode_campaign_data(&sample_campaign()).unwrap();
    encoded.push(0);
    assert!(decode_campaign_data(encoded.as_slice()).is_err());
    // Invalid UTF-8 inside a string field is refused.
    let mut bad = vec![2u8, 0, 0, 0, 0xff, 0xfe];
    bad.extend_from_slice(&[0u8; 60]);
    assert!(decode_campaign_data(bad.as_slice()).is_err());
}

#[test]
fn campaign_from_request_sets_window() {
    let now = 1_700_000_000i64;
    let campaign = campaign_from_request(
        "example-campaign-001".to_string(),
        "Launch Campaign".to_string(),
        "platform".to_string(),
        5_000_000,
        30,
        "https://example.com/campaign/metadata/001".to_string(),
        now,
    )
    .unwrap();
    assert_eq!(campaign.start_time, now);
    assert_eq!(campaign.end_time, now + 30 * 86400);
    assert_eq!(campaign.current_amount, 0);
    assert!(campaign.is_active);
}

#[test]
fn campaign_from_request_rejects_overflowing_window() {
    let r = campaign_from_request(
        "c".to_string(),
        "t".to_string(),
        "c".to_string(),
        0,
        u32::MAX,
        "u".to_string(),
        i64::MAX - 1,
    );
    assert!(r.is_none());
}
