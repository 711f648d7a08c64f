use mkt4u_blockchain::analytics::{
    aggregate_analytics, campaign_insights, conversion_roi_ppm, derive_analytics,
    generate_insights, predict_performance, rank_by_roi, ratio_ppm, record_analytics,
    AnalyticsData, CampaignSnapshot, InsightKind,
};
use mkt4u_blockchain::campaigns::CampaignMetrics;

fn metrics(views: u64, clicks: u64, conversions: u64, total_spent: u64, roi: u64) -> CampaignMetrics {
    CampaignMetrics { views, clicks, conversions, total_spent, roi }
}

fn snapshot(id: &str, roi: u64) -> CampaignSnapshot {
    CampaignSnapshot {
        campaign_id: id.to_string(),
        metrics: metrics(1000, 100, 10, 50000, roi),
    }
}

#[test]
fn rates_with_zero_views_are_zero() {
    // Engagement rate and click-through rate never fault on zero views.
    assert_eq!(ratio_ppm(50, 0), 0);
    let data = derive_analytics("c".to_string(), 0, metrics(0, 50, 5, 100000, 0));
    assert_eq!(data.engagement_rate, 0);
}

#[test]
fn rates_with_zero_clicks_are_zero() {
    // Conversion-rate style computations never fault on zero clicks.
    let data = derive_analytics("c".to_string(), 0, metrics(1000, 0, 5, 100000, 0));
    assert_eq!(data.cost_per_click, 0);
    assert_eq!(conversion_roi_ppm(5, 0), 0);
    // A zero-click campaign never rates as an excellent converter.
    let findings = campaign_insights(&metrics(1000, 0, 500, 0, 1_500_000));
    assert!(!findings.contains(&InsightKind::ExcellentConversionRate));
}

#[test]
fn derived_rates_are_exact() {
    let data = derive_analytics("c".to_string(), 7, metrics(1000, 50, 5, 100000, 2_000_000));
    // 50 clicks over 1000 views is 0.05, i.e. 50_000 millionths.
    assert_eq!(data.engagement_rate, 50_000);
    // 100000 minor units over 50 clicks is 2000 per click.
    assert_eq!(data.cost_per_click, 2_000_000_000);
    assert_eq!(data.cost_per_conversion, 20_000_000_000);
    assert_eq!(data.timestamp, 7);
}

#[test]
fn aggregate_of_nothing_is_all_zero() {
    let report = aggregate_analytics(&Vec::new(), 100, 200);
    assert_eq!(report.period_start, 100);
    assert_eq!(report.period_end, 200);
    assert_eq!(report.total_campaigns, 0);
    assert_eq!(report.total_spend, 0);
    assert_eq!(report.total_conversions, 0);
    assert_eq!(report.average_roi, 0);
    assert!(report.top_performing_campaigns.is_empty());
}

#[test]
fn aggregate_sums_and_averages() {
    let entries = vec![
        CampaignSnapshot {
            campaign_id: "a".to_string(),
            metrics: metrics(1000, 100, 10, 300, 2_500_000),
        },
        CampaignSnapshot {
            campaign_id: "b".to_string(),
            metrics: metrics(2000, 50, 4, 700, 1_000_000),
        },
    ];
    let report = aggregate_analytics(&entries, 0, 10);
    assert_eq!(report.total_campaigns, 2);
    assert_eq!(report.total_spend, 1000);
    assert_eq!(report.total_conversions, 14);
    assert_eq!(report.average_roi, 1_750_000);
    assert_eq!(report.top_performing_campaigns, vec!["a".to_string(), "b".to_string()]);
}

#[test]
fn ranking_returns_top_five_by_descending_roi() {
    // Six campaigns with distinct returns: exactly the top five remain,
    // best first, no duplicates.
    let entries = vec![
        snapshot("c1", 1_000_000),
        snapshot("c2", 6_000_000),
        snapshot("c3", 3_000_000),
        snapshot("c4", 5_000_000),
        snapshot("c5", 2_000_000),
        snapshot("c6", 4_000_000),
    ];
    let report = aggregate_analytics(&entries, 0, 1);
    assert_eq!(
        report.top_performing_campaigns,
        vec![
            "c2".to_string(),
            "c4".to_string(),
            "c6".to_string(),
            "c3".to_string(),
            "c5".to_string(),
        ]
    );
}

#[test]
fn ranking_breaks_ties_by_original_order() {
    let rois = vec![500u64, 900, 500, 900, 100];
    let order = rank_by_roi(&rois);
    assert_eq!(order, vec![1usize, 3, 0, 2, 4]);
}

#[test]
fn test_performance_prediction() {
    let current = metrics(1500, 150, 15, 500000, 2_500_000);
    let prediction = predict_performance(&current, 7);
    assert!(prediction.is_some());

    let predicted_metrics = prediction.unwrap();
    assert!(predicted_metrics.views > 0);
    assert!(predicted_metrics.roi > 0);
}

#[test]
fn prediction_of_zero_days_changes_nothing() {
    let current = metrics(1500, 150, 15, 500000, 2_500_000);
    assert_eq!(predict_performance(&current, 0).unwrap(), current);
}

#[test]
fn prediction_compounds_five_percent_daily() {
    // Seven days of 5% growth: each counter times 1.05^7, floored.
    let current = metrics(1500, 150, 15, 500000, 2_500_000);
    let predicted = predict_performance(&current, 7).unwrap();
    assert_eq!(predicted.views, 2110);
    assert_eq!(predicted.clicks, 211);
    assert_eq!(predicted.conversions, 21);
    assert_eq!(predicted.total_spent, 703550);
    // The ratio grows by the square root of the same factor.
    assert_eq!(predicted.roi, 2_965_531);
}

#[test]
fn insight_thresholds_are_strict() {
    // Exactly at a cutoff no finding fires; just past it, it does.
    assert_eq!(campaign_insights(&metrics(1000, 50, 5, 0, 3_000_000)), vec![]);
    assert_eq!(
        campaign_insights(&metrics(1000, 51, 5, 0, 3_000_001)),
        vec![InsightKind::ExcellentRoi, InsightKind::HighEngagement]
    );
    assert_eq!(
        campaign_insights(&metrics(1000, 9, 2, 0, 999_999)),
        vec![InsightKind::NeedsOptimization, InsightKind::NeedsTargeting, InsightKind::ExcellentConversionRate]
    );
    assert_eq!(campaign_insights(&metrics(1000, 10, 1, 0, 1_000_000)), vec![]);
}

#[test]
fn zero_views_fires_the_low_ctr_advisory() {
    // A zero-view campaign's click-through rate counts as zero: the
    // low-rate advisory fires and the high-rate one is suppressed.
    let findings = campaign_insights(&metrics(0, 0, 0, 0, 1_500_000));
    assert_eq!(findings, vec![InsightKind::NeedsTargeting]);
}

#[test]
fn insights_pair_findings_with_campaigns() {
    let entries = vec![
        CampaignSnapshot {
            campaign_id: "great".to_string(),
            metrics: metrics(1000, 100, 20, 10000, 4_000_000),
        },
        CampaignSnapshot {
            campaign_id: "fine".to_string(),
            metrics: metrics(1000, 20, 1, 10000, 2_000_000),
        },
    ];
    let findings = generate_insights(&entries);
    let rendered: Vec<(String, InsightKind)> = findings
        .into_iter()
        .map(|f| (f.campaign_id, f.kind))
        .collect();
    assert_eq!(
        rendered,
        vec![
            ("great".to_string(), InsightKind::ExcellentRoi),
            ("great".to_string(), InsightKind::HighEngagement),
            ("great".to_string(), InsightKind::ExcellentConversionRate),
        ]
    );
}

fn sample_analytics() -> AnalyticsData {
    AnalyticsData {
        campaign_id: "test-campaign".to_string(),
        timestamp: 1_700_000_000,
        metrics: metrics(1000, 50, 5, 100000, 2_000_000),
        engagement_rate: 50_000,
        cost_per_click: 2_000_000_000,
        cost_per_conversion: 20_000_000_000,
    }
}

#[test]
fn test_analytics_recording() {
    let analytics_data = sample_analytics();
    let result = record_analytics(&analytics_data);
    assert!(result.is_ok());
}

#[test]
fn recording_is_deterministic_and_hex_shaped() {
    let key1 = record_analytics(&sample_analytics()).unwrap();
    let key2 = record_analytics(&sample_analytics()).unwrap();
    // The same logical observation always yields the same audit key.
    assert_eq!(key1, key2);
    // A fixed prefix, then a 256-bit digest as 64 lower-case hex digits.
    assert!(key1.starts_with("analytics_"));
    assert_eq!(key1.len(), "analytics_".len() + 64);
    assert!(key1["analytics_".len()..]
        .chars()
        .all(|c| c.is_ascii_hexdigit() && !c.is_ascii_uppercase()));
    // A different observation yields a different key.
    let mut other = sample_analytics();
    other.metrics.views += 1;
    assert_ne!(record_analytics(&other).unwrap(), key1);
}
