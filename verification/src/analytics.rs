//! Analytics: derived rates, period aggregation, performance prediction
//! and advisory insights.
//!
//! Ratios are held in fixed-point millionths (one millionth is `1`; `1.0`
//! is `1_000_000`), computed by flooring integer division and saturating
//! at `u64::MAX` where a quotient would not fit. A zero denominator always
//! yields zero rather than a fault.
//!
//! Prediction applies a fixed compounding growth model of five percent a
//! day: every counter is multiplied by `(21/20)^days` exactly and floored;
//! the return-on-investment ratio grows sub-linearly, by the square root
//! of the same factor, computed as an exact integer square root.

use vstd::prelude::*;

use sha2::Digest;

use crate::campaigns::{encode_campaign_metrics, metrics_encoded, CampaignMetrics};
use crate::codec::{enc_i64, enc_str, enc_u64, str_encodable, write_i64, write_str, write_u64};
use crate::errors::BlockchainError;

verus! {

use vstd::string::StringExecFns;

/// One recorded observation of a campaign: the campaign, when it was
/// seen, its raw counters, and the derived rates in millionths.
#[derive(Debug, Clone, PartialEq)]
pub struct AnalyticsData {
    pub campaign_id: String,
    pub timestamp: i64,
    pub metrics: CampaignMetrics,
    pub engagement_rate: u64,
    pub cost_per_click: u64,
    pub cost_per_conversion: u64,
}

/// The mathematical value of an [`AnalyticsData`].
#[verifier::ext_equal]
pub ghost struct AnalyticsDataView {
    pub campaign_id: Seq<char>,
    pub timestamp: i64,
    pub metrics: CampaignMetrics,
    pub engagement_rate: u64,
    pub cost_per_click: u64,
    pub cost_per_conversion: u64,
}

impl View for AnalyticsData {
    type V = AnalyticsDataView;

    open spec fn view(&self) -> AnalyticsDataView {
        AnalyticsDataView {
            campaign_id: self.campaign_id@,
            timestamp: self.timestamp,
            metrics: self.metrics,
            engagement_rate: self.engagement_rate,
            cost_per_click: self.cost_per_click,
            cost_per_conversion: self.cost_per_conversion,
        }
    }
}

/// A campaign identifier with its current metrics, as handed to the
/// aggregation and insight paths by whoever performed the reads.
#[derive(Debug, Clone, PartialEq)]
pub struct CampaignSnapshot {
    pub campaign_id: String,
    pub metrics: CampaignMetrics,
}

/// The mathematical value of a [`CampaignSnapshot`].
#[verifier::ext_equal]
pub ghost struct CampaignSnapshotView {
    pub campaign_id: Seq<char>,
    pub metrics: CampaignMetrics,
}

impl View for CampaignSnapshot {
    type V = CampaignSnapshotView;

    open spec fn view(&self) -> CampaignSnapshotView {
        CampaignSnapshotView { campaign_id: self.campaign_id@, metrics: self.metrics }
    }
}

/// A time-bounded rollup over a set of campaigns: period bounds, campaign
/// count, summed spend and conversions, mean return-on-investment in
/// millionths, and up to five campaign identifiers ranked by descending
/// return on investment.
#[derive(Debug, Clone, PartialEq)]
pub struct PerformanceReport {
    pub period_start: i64,
    pub period_end: i64,
    pub total_campaigns: u32,
    pub total_spend: u64,
    pub total_conversions: u64,
    pub average_roi: u64,
    pub top_performing_campaigns: Vec<String>,
}

// ---------------------------------------------------------------------------
// Derived rates
// ---------------------------------------------------------------------------

/// `num / den` in millionths, floored; zero when the denominator is zero,
/// and saturating at `u64::MAX` where the quotient would not fit.
pub open spec fn spec_ratio_ppm(num: int, den: int) -> int {
    if den == 0 {
        0
    } else {
        let v = num * 1_000_000 / den;
        if v > u64::MAX {
            u64::MAX as int
        } else {
            v
        }
    }
}

/// The ratio `num / den` in millionths; zero when `den` is zero, never a
/// fault.
pub fn ratio_ppm(num: u64, den: u64) -> (r: u64)
    ensures
        r == spec_ratio_ppm(num as int, den as int),
        den == 0 ==> r == 0,
{
    if den == 0 {
        0
    } else {
        let v: u128 = (num as u128) * 1_000_000u128 / (den as u128);
        if v > u64::MAX as u128 {
            u64::MAX
        } else {
            v as u64
        }
    }
}

/// Builds the analytics record for one observation, deriving the
/// engagement rate (clicks per view), cost per click and cost per
/// conversion, each in millionths and each zero where its denominator is
/// zero.
pub fn derive_analytics(campaign_id: String, timestamp: i64, metrics: CampaignMetrics) -> (r:
    AnalyticsData)
    ensures
        r.campaign_id@ == campaign_id@,
        r.timestamp == timestamp,
        r.metrics == metrics,
        r.engagement_rate == spec_ratio_ppm(metrics.clicks as int, metrics.views as int),
        r.cost_per_click == spec_ratio_ppm(metrics.total_spent as int, metrics.clicks as int),
        r.cost_per_conversion == spec_ratio_ppm(
            metrics.total_spent as int,
            metrics.conversions as int,
        ),
{
    let engagement_rate = ratio_ppm(metrics.clicks, metrics.views);
    let cost_per_click = ratio_ppm(metrics.total_spent, metrics.clicks);
    let cost_per_conversion = ratio_ppm(metrics.total_spent, metrics.conversions);
    AnalyticsData {
        campaign_id,
        timestamp,
        metrics,
        engagement_rate,
        cost_per_click,
        cost_per_conversion,
    }
}

/// The return-on-investment ratio in millionths derived from conversions
/// valued at one hundred whole units each against the spend in minor
/// units (one million minor units to the whole unit): zero when nothing
/// was spent, saturating at `u64::MAX`.
pub open spec fn spec_conversion_roi_ppm(conversions: int, total_spent: int) -> int {
    if total_spent == 0 {
        0
    } else {
        let v = conversions * 100_000_000_000_000 / total_spent;
        if v > u64::MAX {
            u64::MAX as int
        } else {
            v
        }
    }
}

/// The return-on-investment ratio in millionths for an observation of
/// `conversions` against `total_spent` minor units.
pub fn conversion_roi_ppm(conversions: u64, total_spent: u64) -> (r: u64)
    ensures
        r == spec_conversion_roi_ppm(conversions as int, total_spent as int),
        total_spent == 0 ==> r == 0,
{
    if total_spent == 0 {
        0
    } else {
        let v: u128 = (conversions as u128) * 100_000_000_000_000u128 / (total_spent as u128);
        if v > u64::MAX as u128 {
            u64::MAX
        } else {
            v as u64
        }
    }
}

// ---------------------------------------------------------------------------
// Insights
// ---------------------------------------------------------------------------

/// An advisory finding about one campaign's performance.
#[derive(Debug, Clone, Copy, PartialEq, Eq, Structural)]
pub enum InsightKind {
    /// Return on investment above 3.0.
    ExcellentRoi,
    /// Return on investment below 1.0.
    NeedsOptimization,
    /// Click-through rate above 0.05.
    HighEngagement,
    /// Click-through rate below 0.01.
    NeedsTargeting,
    /// Conversion rate above 0.15.
    ExcellentConversionRate,
}

/// An advisory finding paired with the campaign it is about.
#[derive(Debug, Clone, PartialEq)]
pub struct CampaignInsight {
    pub campaign_id: String,
    pub kind: InsightKind,
}

/// The mathematical value of a [`CampaignInsight`].
#[verifier::ext_equal]
pub ghost struct CampaignInsightView {
    pub campaign_id: Seq<char>,
    pub kind: InsightKind,
}

impl View for CampaignInsight {
    type V = CampaignInsightView;

    open spec fn view(&self) -> CampaignInsightView {
        CampaignInsightView { campaign_id: self.campaign_id@, kind: self.kind }
    }
}

/// Click-through rate strictly above 0.05, as the exact rational
/// comparison `clicks / views > 1/20`; a zero-view campaign has no
/// click-through rate and never rates as high engagement.
pub open spec fn spec_high_ctr(m: CampaignMetrics) -> bool {
    m.views > 0 && 20 * m.clicks > m.views
}

/// Click-through rate strictly below 0.01, as the exact rational
/// comparison `clicks / views < 1/100`. A zero-view campaign's rate is
/// taken as zero, which is below the cutoff, so the advisory fires.
pub open spec fn spec_low_ctr(m: CampaignMetrics) -> bool {
    m.views == 0 || 100 * m.clicks < m.views
}

/// Conversion rate strictly above 0.15, as the exact rational comparison
/// `conversions / clicks > 3/20`; a zero-click campaign's rate is taken
/// as zero and never rates as excellent.
pub open spec fn spec_high_conversion(m: CampaignMetrics) -> bool {
    m.clicks > 0 && 20 * m.conversions > 3 * m.clicks
}

/// The advisory findings for one campaign's metrics, in a fixed order:
/// the return-on-investment finding (excellent above 3.0, otherwise needs
/// optimization below 1.0), then the click-through finding (high above
/// 0.05, otherwise low below 0.01), then the conversion-rate finding
/// (excellent above 0.15). Thresholds are strict cutoffs.
pub open spec fn spec_campaign_insights(m: CampaignMetrics) -> Seq<InsightKind> {
    (if m.roi > 3_000_000 {
        seq![InsightKind::ExcellentRoi]
    } else if m.roi < 1_000_000 {
        seq![InsightKind::NeedsOptimization]
    } else {
        Seq::<InsightKind>::empty()
    }) + (if spec_high_ctr(m) {
        seq![InsightKind::HighEngagement]
    } else if spec_low_ctr(m) {
        seq![InsightKind::NeedsTargeting]
    } else {
        Seq::<InsightKind>::empty()
    }) + (if spec_high_conversion(m) {
        seq![InsightKind::ExcellentConversionRate]
    } else {
        Seq::<InsightKind>::empty()
    })
}

/// The advisory findings for one campaign's metrics.
pub fn campaign_insights(m: &CampaignMetrics) -> (r: Vec<InsightKind>)
    ensures
        r@ == spec_campaign_insights(*m),
{
    let mut out: Vec<InsightKind> = Vec::new();
    if m.roi > 3_000_000 {
        out.push(InsightKind::ExcellentRoi);
    } else if m.roi < 1_000_000 {
        out.push(InsightKind::NeedsOptimization);
    }
    if m.views > 0 && 20u128 * (m.clicks as u128) > m.views as u128 {
        out.push(InsightKind::HighEngagement);
    } else if m.views == 0 || 100u128 * (m.clicks as u128) < m.views as u128 {
        out.push(InsightKind::NeedsTargeting);
    }
    if m.clicks > 0 && 20u128 * (m.conversions as u128) > 3u128 * (m.clicks as u128) {
        out.push(InsightKind::ExcellentConversionRate);
    }
    proof {
        assert(out@ =~= spec_campaign_insights(*m));
    }
    out
}

/// The findings of one campaign, each paired with its identifier.
pub open spec fn spec_insights_for(id: Seq<char>, m: CampaignMetrics) -> Seq<CampaignInsightView> {
    spec_campaign_insights(m).map_values(
        |k: InsightKind| CampaignInsightView { campaign_id: id, kind: k },
    )
}

/// All findings over a list of campaign snapshots, campaign by campaign
/// in order.
pub open spec fn spec_generate_insights(entries: Seq<CampaignSnapshotView>) -> Seq<
    CampaignInsightView,
>
    decreases entries.len(),
{
    if entries.len() == 0 {
        Seq::empty()
    } else {
        spec_generate_insights(entries.drop_last()) + spec_insights_for(
            entries.last().campaign_id,
            entries.last().metrics,
        )
    }
}

/// Generates the advisory findings for every campaign in `entries`, in
/// order, each paired with its campaign identifier.
pub fn generate_insights(entries: &Vec<CampaignSnapshot>) -> (r: Vec<CampaignInsight>)
    ensures
        r@.map_values(|ci: CampaignInsight| ci@) == spec_generate_insights(
            entries@.map_values(|e: CampaignSnapshot| e@),
        ),
{
    let ghost views = entries@.map_values(|e: CampaignSnapshot| e@);
    let mut out: Vec<CampaignInsight> = Vec::new();
    let mut i: usize = 0;
    while i < entries.len()
        invariant
            i <= entries.len(),
            views == entries@.map_values(|e: CampaignSnapshot| e@),
            out@.map_values(|ci: CampaignInsight| ci@) == spec_generate_insights(
                views.take(i as int),
            ),
        decreases entries.len() - i,
    {
        let e = &entries[i];
        let kinds = campaign_insights(&e.metrics);
        proof {
            assert(spec_generate_insights(views.take(i as int)) + spec_insights_for(
                e.campaign_id@,
                e.metrics,
            ).take(0) =~= spec_generate_insights(views.take(i as int)));
        }
        let mut j: usize = 0;
        while j < kinds.len()
            invariant
                j <= kinds.len(),
                views == entries@.map_values(|en: CampaignSnapshot| en@),
                i < entries.len(),
                e == entries@[i as int],
                kinds@ == spec_campaign_insights(e.metrics),
                out@.map_values(|ci: CampaignInsight| ci@) == spec_generate_insights(
                    views.take(i as int),
                ) + spec_insights_for(e.campaign_id@, e.metrics).take(j as int),
            decreases kinds.len() - j,
        {
            let ci = CampaignInsight { campaign_id: e.campaign_id.clone(), kind: kinds[j] };
            let ghost civ = ci@;
            let ghost out_before = out@;
            out.push(ci);
            proof {
                let f = spec_insights_for(e.campaign_id@, e.metrics);
                let pre = spec_generate_insights(views.take(i as int));
                assert(civ == f[j as int]);
                assert(out@ == out_before.push(ci));
                assert(out@.map_values(|ci: CampaignInsight| ci@) =~= out_before.map_values(
                    |ci: CampaignInsight| ci@,
                ).push(civ));
                assert(f.take(j + 1) =~= f.take(j as int).push(f[j as int]));
                assert((pre + f.take(j as int)).push(f[j as int]) =~= pre + f.take(j + 1));
                assert(out@.map_values(|ci: CampaignInsight| ci@) == pre + f.take(j + 1));
            }
            j = j + 1;
        }
        proof {
            assert(views.take(i + 1).drop_last() =~= views.take(i as int));
            assert(views.take(i + 1).last() == e@);
            assert(spec_insights_for(e.campaign_id@, e.metrics).take(j as int)
                =~= spec_insights_for(e.campaign_id@, e.metrics));
            assert(out@.map_values(|ci: CampaignInsight| ci@) =~= spec_generate_insights(
                views.take(i + 1),
            ));
        }
        i = i + 1;
    }
    proof {
        assert(views.take(entries@.len() as int) =~= views);
    }
    out
}

// ---------------------------------------------------------------------------
// Aggregation
// ---------------------------------------------------------------------------

/// The summed spend over the snapshots.
pub open spec fn spec_sum_spend(entries: Seq<CampaignSnapshotView>) -> int
    decreases entries.len(),
{
    if entries.len() == 0 {
        0
    } else {
        spec_sum_spend(entries.drop_last()) + entries.last().metrics.total_spent
    }
}

/// The summed conversions over the snapshots.
pub open spec fn spec_sum_conversions(entries: Seq<CampaignSnapshotView>) -> int
    decreases entries.len(),
{
    if entries.len() == 0 {
        0
    } else {
        spec_sum_conversions(entries.drop_last()) + entries.last().metrics.conversions
    }
}

/// The summed return-on-investment ratios (millionths) over the
/// snapshots.
pub open spec fn spec_sum_roi(entries: Seq<CampaignSnapshotView>) -> int
    decreases entries.len(),
{
    if entries.len() == 0 {
        0
    } else {
        spec_sum_roi(entries.drop_last()) + entries.last().metrics.roi
    }
}

/// Campaign `i` outranks campaign `j` when its return on investment is
/// strictly higher, or equal with `i` standing earlier: ranking is by
/// descending return on investment with ties broken by original order, so
/// it is deterministic.
pub open spec fn spec_outranks(rois: Seq<u64>, i: int, j: int) -> bool {
    rois[i] > rois[j] || (rois[i] == rois[j] && i < j)
}

/// `order` ranks all of `rois`: it lists every position exactly once,
/// best first.
pub open spec fn spec_is_ranking(rois: Seq<u64>, order: Seq<usize>) -> bool {
    &&& order.len() == rois.len()
    &&& forall|k: int| 0 <= k < order.len() ==> (#[trigger] order[k]) < rois.len()
    &&& forall|j: usize| j < rois.len() ==> order.contains(j)
    &&& forall|k1: int, k2: int|
        0 <= k1 < k2 < order.len() ==> spec_outranks(rois, order[k1] as int, order[k2] as int)
}

/// `top` holds the identifiers of the best `min(5, n)` campaigns of
/// `entries`, best first, as picked out by a full ranking `order`.
pub open spec fn spec_top_ranking(
    entries: Seq<CampaignSnapshot>,
    top: Seq<String>,
    order: Seq<usize>,
) -> bool {
    let views = entries.map_values(|e: CampaignSnapshot| e@);
    let rois = views.map_values(|e: CampaignSnapshotView| e.metrics.roi);
    let count = if views.len() < 5 {
        views.len() as int
    } else {
        5
    };
    &&& spec_is_ranking(rois, order)
    &&& top.len() == count
    &&& forall|k: int|
        0 <= k < count ==> (#[trigger] top[k])@ == views[order[k] as int].campaign_id
}

/// The positions of `o1` and `o2` agree below `k`: the stable ranking is
/// unique position by position.
proof fn lemma_ranking_agree_below(rois: Seq<u64>, o1: Seq<usize>, o2: Seq<usize>, k: int)
    requires
        spec_is_ranking(rois, o1),
        spec_is_ranking(rois, o2),
        0 <= k <= rois.len(),
    ensures
        forall|j: int| 0 <= j < k ==> o1[j] == o2[j],
    decreases k,
{
    if k > 0 {
        lemma_ranking_agree_below(rois, o1, o2, k - 1);
        let m = k - 1;
        if o1[m] != o2[m] {
            let u = o2[m];
            assert(o1.contains(u));
            let j = choose|j: int| 0 <= j < o1.len() && o1[j] == u;
            if j < m {
                assert(o2[j] == o1[j] == u);
                assert(spec_outranks(rois, o2[j] as int, o2[m] as int));
                assert(false);
            }
            assert(j > m);
            assert(spec_outranks(rois, o1[m] as int, u as int));
            let v = o1[m];
            assert(o2.contains(v));
            let j2 = choose|j2: int| 0 <= j2 < o2.len() && o2[j2] == v;
            if j2 < m {
                assert(o1[j2] == o2[j2] == v);
                assert(spec_outranks(rois, o1[j2] as int, o1[m] as int));
                assert(false);
            }
            assert(j2 > m);
            assert(spec_outranks(rois, o2[m] as int, v as int));
            assert(false);
        }
    }
}

/// The ranking is deterministic: two full rankings of the same returns
/// are the same sequence, so the top identifiers of a report are uniquely
/// determined by its campaigns.
pub proof fn lemma_ranking_unique(rois: Seq<u64>, o1: Seq<usize>, o2: Seq<usize>)
    requires
        spec_is_ranking(rois, o1),
        spec_is_ranking(rois, o2),
    ensures
        o1 == o2,
{
    lemma_ranking_agree_below(rois, o1, o2, rois.len() as int);
    assert(o1 =~= o2);
}

/// The report's top list is deterministic: any two top lists of the same
/// campaigns read the same, character for character.
pub proof fn lemma_top_list_unique(
    entries: Seq<CampaignSnapshot>,
    t1: Seq<String>,
    o1: Seq<usize>,
    t2: Seq<String>,
    o2: Seq<usize>,
)
    requires
        spec_top_ranking(entries, t1, o1),
        spec_top_ranking(entries, t2, o2),
    ensures
        t1.map_values(|s: String| s@) == t2.map_values(|s: String| s@),
{
    let views = entries.map_values(|e: CampaignSnapshot| e@);
    let rois = views.map_values(|e: CampaignSnapshotView| e.metrics.roi);
    lemma_ranking_unique(rois, o1, o2);
    assert(t1.map_values(|s: String| s@) =~= t2.map_values(|s: String| s@));
}

/// The first positions of `order` rank the first `m` campaigns.
spec fn spec_partial_ranking(rois: Seq<u64>, order: Seq<usize>, m: int) -> bool {
    &&& order.len() == m
    &&& forall|k: int| 0 <= k < order.len() ==> (#[trigger] order[k]) < m
    &&& forall|j: usize| j < m ==> order.contains(j)
    &&& forall|k1: int, k2: int|
        0 <= k1 < k2 < order.len() ==> spec_outranks(rois, order[k1] as int, order[k2] as int)
}

/// Ranks campaign positions by descending return on investment, ties
/// broken by original position: a stable, deterministic ranking of every
/// position. Insertion keeps earlier positions ahead of later ones with
/// an equal return on investment.
#[verifier::rlimit(100)]
pub fn rank_by_roi(rois: &Vec<u64>) -> (order: Vec<usize>)
    ensures
        spec_is_ranking(rois@, order@),
{
    let mut order: Vec<usize> = Vec::new();
    let mut i: usize = 0;
    while i < rois.len()
        invariant
            i <= rois.len(),
            spec_partial_ranking(rois@, order@, i as int),
        decreases rois.len() - i,
    {
        let ghost prev = order@;
        let mut p: usize = 0;
        while p < order.len() && rois[i] <= rois[order[p]]
            invariant
                p <= order.len(),
                i < rois.len(),
                order@ == prev,
                spec_partial_ranking(rois@, order@, i as int),
                forall|k: int| 0 <= k < p ==> rois@[#[trigger] prev[k] as int] >= rois@[i as int],
            decreases order.len() - p,
        {
            p = p + 1;
        }
        proof {
            prev.insert_ensures(p as int, i);
        }
        order.insert(p, i);
        proof {
            let cur = order@;
            assert(cur == prev.insert(p as int, i));
            assert forall|k1: int, k2: int|
                0 <= k1 < k2 < cur.len() implies spec_outranks(
                rois@,
                cur[k1] as int,
                cur[k2] as int,
            ) by {
                if k2 < p {
                    assert(cur[k1] == prev[k1] && cur[k2] == prev[k2]);
                } else if k1 < p && k2 == p {
                    assert(cur[k1] == prev[k1] && cur[k2] == i);
                    assert(rois@[prev[k1] as int] >= rois@[i as int]);
                    assert(prev[k1] < i);
                } else if k1 < p && k2 > p {
                    assert(cur[k1] == prev[k1] && cur[k2] == prev[k2 - 1]);
                } else if k1 == p {
                    assert(cur[k1] == i && cur[k2] == prev[k2 - 1]);
                    assert(rois@[i as int] > rois@[prev[p as int] as int]);
                    if k2 - 1 > p {
                        assert(spec_outranks(rois@, prev[p as int] as int, prev[k2 - 1] as int));
                    }
                } else {
                    assert(cur[k1] == prev[k1 - 1] && cur[k2] == prev[k2 - 1]);
                }
            }
            assert forall|j: usize| j < i + 1 implies cur.contains(j) by {
                if j == i as usize {
                    assert(cur[p as int] == i);
                } else {
                    assert(prev.contains(j));
                    let k = choose|k: int| 0 <= k < prev.len() && prev[k] == j;
                    if k < p {
                        assert(cur[k] == j);
                    } else {
                        assert(cur[k + 1] == j);
                    }
                }
            }
            assert(spec_partial_ranking(rois@, cur, i + 1));
        }
        i = i + 1;
    }
    order
}

/// Aggregates the snapshots of a period into a report: campaign count,
/// summed spend and conversions (saturating at `u64::MAX`), mean
/// return-on-investment in millionths (zero for an empty period), and the
/// identifiers of the top five campaigns by descending return on
/// investment, ties broken by input order.
#[verifier::rlimit(100)]
pub fn aggregate_analytics(
    entries: &Vec<CampaignSnapshot>,
    start_time: i64,
    end_time: i64,
) -> (r: PerformanceReport)
    requires
        entries@.len() <= u32::MAX,
    ensures
        r.period_start == start_time,
        r.period_end == end_time,
        r.total_campaigns == entries@.len(),
        ({
            let views = entries@.map_values(|e: CampaignSnapshot| e@);
            let spend = spec_sum_spend(views);
            let conv = spec_sum_conversions(views);
            &&& r.total_spend == if spend > u64::MAX {
                u64::MAX as int
            } else {
                spend
            }
            &&& r.total_conversions == if conv > u64::MAX {
                u64::MAX as int
            } else {
                conv
            }
            &&& r.average_roi == if views.len() == 0 {
                0
            } else {
                spec_sum_roi(views) / views.len() as int
            }
        }),
        exists|order: Seq<usize>|
            #[trigger] spec_top_ranking(entries@, r.top_performing_campaigns@, order),
        entries@.len() == 0 ==> r.total_spend == 0 && r.total_conversions == 0 && r.average_roi
            == 0 && r.top_performing_campaigns@.len() == 0,
{
    let ghost views = entries@.map_values(|e: CampaignSnapshot| e@);
    let mut spend_acc: u128 = 0;
    let mut conv_acc: u128 = 0;
    let mut roi_acc: u128 = 0;
    let mut rois: Vec<u64> = Vec::new();
    let mut i: usize = 0;
    while i < entries.len()
        invariant
            i <= entries.len(),
            entries@.len() <= u32::MAX,
            views == entries@.map_values(|e: CampaignSnapshot| e@),
            spend_acc == spec_sum_spend(views.take(i as int)),
            conv_acc == spec_sum_conversions(views.take(i as int)),
            roi_acc == spec_sum_roi(views.take(i as int)),
            spend_acc <= (i as int) * (u64::MAX as int),
            conv_acc <= (i as int) * (u64::MAX as int),
            roi_acc <= (i as int) * (u64::MAX as int),
            rois@.len() == i,
            forall|j: int| 0 <= j < i ==> rois@[j] == views[j].metrics.roi,
        decreases entries.len() - i,
    {
        let e = &entries[i];
        proof {
            assert(views.take(i + 1).drop_last() =~= views.take(i as int));
            assert(views.take(i + 1).last() == e@);
        }
        spend_acc = spend_acc + e.metrics.total_spent as u128;
        conv_acc = conv_acc + e.metrics.conversions as u128;
        roi_acc = roi_acc + e.metrics.roi as u128;
        rois.push(e.metrics.roi);
        i = i + 1;
    }
    proof {
        assert(views.take(entries@.len() as int) =~= views);
        assert(rois@ =~= views.map_values(|e: CampaignSnapshotView| e.metrics.roi));
    }
    let total_spend: u64 = if spend_acc > u64::MAX as u128 {
        u64::MAX
    } else {
        spend_acc as u64
    };
    let total_conversions: u64 = if conv_acc > u64::MAX as u128 {
        u64::MAX
    } else {
        conv_acc as u64
    };
    let average_roi: u64 = if entries.len() == 0 {
        0
    } else {
        proof {
            vstd::arithmetic::div_mod::lemma_div_is_ordered(
                roi_acc as int,
                (entries@.len() as int) * (u64::MAX as int),
                entries@.len() as int,
            );
            vstd::arithmetic::div_mod::lemma_div_multiples_vanish(
                u64::MAX as int,
                entries@.len() as int,
            );
        }
        (roi_acc / (entries.len() as u128)) as u64
    };
    let order = rank_by_roi(&rois);
    let count = if order.len() < 5 {
        order.len()
    } else {
        5
    };
    let mut top: Vec<String> = Vec::new();
    let mut k: usize = 0;
    while k < count
        invariant
            k <= count,
            count <= order.len(),
            count == if views.len() < 5 {
                views.len() as int
            } else {
                5
            },
            views == entries@.map_values(|e: CampaignSnapshot| e@),
            rois@ == views.map_values(|e: CampaignSnapshotView| e.metrics.roi),
            spec_is_ranking(rois@, order@),
            order@.len() == views.len(),
            top@.len() == k,
            forall|j: int| 0 <= j < k ==> (#[trigger] top@[j])@ == views[order@[j] as int].campaign_id,
        decreases count - k,
    {
        let idx = order[k];
        top.push(entries[idx].campaign_id.clone());
        k = k + 1;
    }
    proof {
        assert(spec_top_ranking(entries@, top@, order@));
    }
    let result = PerformanceReport {
        period_start: start_time,
        period_end: end_time,
        total_campaigns: entries.len() as u32,
        total_spend,
        total_conversions,
        average_roi,
        top_performing_campaigns: top,
    };
    proof {
        assert(spec_top_ranking(entries@, result.top_performing_campaigns@, order@));
    }
    result
}

// ---------------------------------------------------------------------------
// Performance prediction
// ---------------------------------------------------------------------------

/// `base` to the power `exp`.
pub open spec fn spec_pow(base: nat, exp: nat) -> nat
    decreases exp,
{
    if exp == 0 {
        1
    } else {
        base * spec_pow(base, (exp - 1) as nat)
    }
}

/// A power of a positive base is positive.
pub proof fn lemma_pow_positive(base: nat, exp: nat)
    requires
        base >= 1,
    ensures
        spec_pow(base, exp) >= 1,
    decreases exp,
{
    if exp > 0 {
        lemma_pow_positive(base, (exp - 1) as nat);
        assert(base * spec_pow(base, (exp - 1) as nat) >= spec_pow(base, (exp - 1) as nat))
            by (nonlinear_arith)
            requires
                base >= 1,
                spec_pow(base, (exp - 1) as nat) >= 1,
        ;
    }
}

/// Powers of a base of at least one do not shrink as the exponent grows.
pub proof fn lemma_pow_monotonic_exp(base: nat, e1: nat, e2: nat)
    requires
        base >= 1,
        e1 <= e2,
    ensures
        spec_pow(base, e1) <= spec_pow(base, e2),
    decreases e2,
{
    if e1 < e2 {
        lemma_pow_monotonic_exp(base, e1, (e2 - 1) as nat);
        lemma_pow_positive(base, (e2 - 1) as nat);
        assert(base * spec_pow(base, (e2 - 1) as nat) >= spec_pow(base, (e2 - 1) as nat))
            by (nonlinear_arith)
            requires
                base >= 1,
                spec_pow(base, (e2 - 1) as nat) >= 1,
        ;
    }
}

/// A smaller base gives a power no larger, at any exponent.
pub proof fn lemma_pow_monotonic_base(b1: nat, b2: nat, exp: nat)
    requires
        b1 <= b2,
    ensures
        spec_pow(b1, exp) <= spec_pow(b2, exp),
    decreases exp,
{
    if exp > 0 {
        lemma_pow_monotonic_base(b1, b2, (exp - 1) as nat);
        assert(b1 * spec_pow(b1, (exp - 1) as nat) <= b2 * spec_pow(b2, (exp - 1) as nat))
            by (nonlinear_arith)
            requires
                b1 <= b2,
                spec_pow(b1, (exp - 1) as nat) <= spec_pow(b2, (exp - 1) as nat),
        ;
    }
}

/// `base` to the power `exp`, or nothing where the value exceeds `u128`.
fn pow_u128(base: u64, exp: u32) -> (r: Option<u128>)
    requires
        base >= 1,
    ensures
        r matches Some(p) ==> p == spec_pow(base as nat, exp as nat),
        r is None ==> spec_pow(base as nat, exp as nat) > u128::MAX,
{
    let mut acc: u128 = 1;
    let mut i: u32 = 0;
    while i < exp
        invariant
            i <= exp,
            base >= 1,
            acc == spec_pow(base as nat, i as nat),
        decreases exp - i,
    {
        proof {
            assert(spec_pow(base as nat, (i + 1) as nat) == base * spec_pow(base as nat, i as nat));
        }
        let next = acc.checked_mul(base as u128);
        proof {
            assert(acc * (base as u128) == (base as u128) * acc) by (nonlinear_arith);
        }
        if next.is_none() {
            proof {
                assert(spec_pow(base as nat, (i + 1) as nat) > u128::MAX);
                lemma_pow_monotonic_exp(base as nat, (i + 1) as nat, exp as nat);
            }
            return None;
        }
        acc = next.unwrap();
        i = i + 1;
    }
    Some(acc)
}

/// Whether `r` is the integer square root of `n`.
pub open spec fn spec_is_isqrt(n: nat, r: nat) -> bool {
    r * r <= n < (r + 1) * (r + 1)
}

/// The integer square root: the greatest `r` with `r * r <= n`.
pub open spec fn spec_isqrt(n: nat) -> nat
    decreases n,
{
    if n == 0 {
        0
    } else {
        let r = spec_isqrt((n - 1) as nat);
        if (r + 1) * (r + 1) <= n {
            r + 1
        } else {
            r
        }
    }
}

/// The integer square root satisfies its defining inequalities.
pub proof fn lemma_isqrt_is_isqrt(n: nat)
    ensures
        spec_is_isqrt(n, spec_isqrt(n)),
    decreases n,
{
    if n > 0 {
        lemma_isqrt_is_isqrt((n - 1) as nat);
        let r = spec_isqrt((n - 1) as nat);
        assert(r * r <= n - 1 < (r + 1) * (r + 1));
        assert(spec_isqrt(n) == if (r + 1) * (r + 1) <= n {
            r + 1
        } else {
            r
        });
        if (r + 1) * (r + 1) <= n {
            assert(n < (r + 2) * (r + 2)) by (nonlinear_arith)
                requires
                    n <= (r + 1) * (r + 1),
            ;
            assert(spec_is_isqrt(n, r + 1));
            assert(spec_is_isqrt(n, spec_isqrt(n)));
        } else {
            assert(spec_is_isqrt(n, r));
            assert(spec_is_isqrt(n, spec_isqrt(n)));
        }
    } else {
        assert(spec_isqrt(n) == 0);
        assert(0 * 0 <= n < (0 + 1) * (0 + 1)) by (nonlinear_arith)
            requires
                n == 0,
        ;
        assert(spec_is_isqrt(n, 0));
    }
}

/// Only one value satisfies the integer-square-root inequalities.
pub proof fn lemma_isqrt_unique(n: nat, r: nat)
    requires
        spec_is_isqrt(n, r),
    ensures
        r == spec_isqrt(n),
{
    lemma_isqrt_is_isqrt(n);
    let q = spec_isqrt(n);
    if r < q {
        assert((r + 1) * (r + 1) <= q * q) by (nonlinear_arith)
            requires
                r + 1 <= q,
        ;
    }
    if q < r {
        assert((q + 1) * (q + 1) <= r * r) by (nonlinear_arith)
            requires
                q + 1 <= r,
        ;
    }
}

/// The integer square root of `n`, by bisection.
pub fn isqrt_u128(n: u128) -> (r: u64)
    ensures
        r == spec_isqrt(n as nat),
        spec_is_isqrt(n as nat, r as nat),
{
    proof {
        lemma_isqrt_is_isqrt(n as nat);
    }
    if n >= 0xFFFF_FFFF_FFFF_FFFE_0000_0000_0000_0001u128 {
        proof {
            assert((u64::MAX as int) * (u64::MAX as int)
                == 0xFFFF_FFFF_FFFF_FFFE_0000_0000_0000_0001);
            assert((u64::MAX as int + 1) * (u64::MAX as int + 1)
                == 0x1_0000_0000_0000_0000_0000_0000_0000_0000);
            assert(spec_is_isqrt(n as nat, u64::MAX as nat));
            lemma_isqrt_unique(n as nat, u64::MAX as nat);
        }
        return u64::MAX;
    }
    let mut lo: u128 = 0;
    let mut hi: u128 = 0x1_0000_0000_0000_0000u128;
    while hi - lo > 1
        invariant
            lo < hi <= 0x1_0000_0000_0000_0000u128,
            (lo as int) * (lo as int) <= n as int,
            (n as int) < (hi as int) * (hi as int),
        decreases hi - lo,
    {
        let mid = lo + (hi - lo) / 2;
        proof {
            assert((mid as int) * (mid as int) <= (0xFFFF_FFFF_FFFF_FFFFu128 as int) * (
            0xFFFF_FFFF_FFFF_FFFFu128 as int)) by (nonlinear_arith)
                requires
                    0 <= mid as int <= 0xFFFF_FFFF_FFFF_FFFFu128 as int,
            ;
        }
        let m2 = mid * mid;
        if m2 <= n {
            lo = mid;
        } else {
            hi = mid;
        }
    }
    proof {
        assert(spec_is_isqrt(n as nat, lo as nat));
        lemma_isqrt_unique(n as nat, lo as nat);
    }
    lo as u64
}

/// A counter grown by the compound factor `(21/20)^days`, floored.
pub open spec fn spec_grown(v: u64, days: nat) -> int {
    (v as int) * (spec_pow(21, days) as int) / (spec_pow(20, days) as int)
}

/// The grown return-on-investment ratio: multiplied by the square root of
/// the growth factor, computed exactly as the integer square root of
/// `roi^2 * 21^days / 20^days`.
pub open spec fn spec_grown_roi(roi: u64, days: nat) -> int {
    spec_isqrt(((roi as int) * (roi as int) * (spec_pow(21, days) as int) / (spec_pow(
        20,
        days,
    ) as int)) as nat) as int
}

/// Whether the exact computation of the prediction stays within machine
/// bounds: every intermediate product fits `u128` and every predicted
/// counter fits its `u64` field.
pub open spec fn spec_prediction_fits(m: CampaignMetrics, days: nat) -> bool {
    &&& spec_pow(21, days) <= u128::MAX
    &&& m.views * spec_pow(21, days) <= u128::MAX
    &&& m.clicks * spec_pow(21, days) <= u128::MAX
    &&& m.conversions * spec_pow(21, days) <= u128::MAX
    &&& m.total_spent * spec_pow(21, days) <= u128::MAX
    &&& m.roi * m.roi * spec_pow(21, days) <= u128::MAX
    &&& spec_grown(m.views, days) <= u64::MAX
    &&& spec_grown(m.clicks, days) <= u64::MAX
    &&& spec_grown(m.conversions, days) <= u64::MAX
    &&& spec_grown(m.total_spent, days) <= u64::MAX
}

/// The predicted metrics after `days` of five-percent daily compound
/// growth: every counter multiplied by `(21/20)^days` exactly and
/// floored; the return-on-investment ratio multiplied by the square root
/// of that factor.
pub open spec fn spec_predicted(m: CampaignMetrics, days: nat) -> CampaignMetrics {
    CampaignMetrics {
        views: spec_grown(m.views, days) as u64,
        clicks: spec_grown(m.clicks, days) as u64,
        conversions: spec_grown(m.conversions, days) as u64,
        total_spent: spec_grown(m.total_spent, days) as u64,
        roi: spec_grown_roi(m.roi, days) as u64,
    }
}

/// One counter grown by `21^days / 20^days` against precomputed powers.
fn grow_counter(v: u64, p21: u128, p20: u128, Ghost(days): Ghost<nat>) -> (r: Option<u64>)
    requires
        p21 == spec_pow(21, days),
        p20 == spec_pow(20, days),
    ensures
        r matches Some(g) ==> v * spec_pow(21, days) <= u128::MAX && g == spec_grown(v, days),
        r is None ==> v * spec_pow(21, days) > u128::MAX || spec_grown(v, days) > u64::MAX,
{
    proof {
        lemma_pow_positive(20, days);
    }
    let prod = match (v as u128).checked_mul(p21) {
        Some(prod) => prod,
        None => {
            return None;
        },
    };
    let q = prod / p20;
    if q > u64::MAX as u128 {
        None
    } else {
        Some(q as u64)
    }
}

/// Predicts a campaign's metrics `days_ahead` days out under the fixed
/// five-percent daily compound growth model. Returns nothing exactly
/// where the exact computation would overflow the machine bounds.
pub fn predict_performance(m: &CampaignMetrics, days_ahead: u32) -> (r: Option<CampaignMetrics>)
    ensures
        r matches Some(p) ==> spec_prediction_fits(*m, days_ahead as nat) && p == spec_predicted(
            *m,
            days_ahead as nat,
        ),
        r is None ==> !spec_prediction_fits(*m, days_ahead as nat),
{
    let ghost days = days_ahead as nat;
    let p20 = match pow_u128(20, days_ahead) {
        Some(p) => p,
        None => {
            proof {
                lemma_pow_monotonic_base(20, 21, days);
            }
            return None;
        },
    };
    let p21 = match pow_u128(21, days_ahead) {
        Some(p) => p,
        None => {
            return None;
        },
    };
    let views = match grow_counter(m.views, p21, p20, Ghost(days)) {
        Some(v) => v,
        None => {
            return None;
        },
    };
    let clicks = match grow_counter(m.clicks, p21, p20, Ghost(days)) {
        Some(v) => v,
        None => {
            return None;
        },
    };
    let conversions = match grow_counter(m.conversions, p21, p20, Ghost(days)) {
        Some(v) => v,
        None => {
            return None;
        },
    };
    let total_spent = match grow_counter(m.total_spent, p21, p20, Ghost(days)) {
        Some(v) => v,
        None => {
            return None;
        },
    };
    proof {
        assert((m.roi as u128) * (m.roi as u128) <= u128::MAX) by (nonlinear_arith)
            requires
                m.roi <= u64::MAX,
        ;
    }
    let roi_sq = (m.roi as u128) * (m.roi as u128);
    let roi_scaled = match roi_sq.checked_mul(p21) {
        Some(v) => v,
        None => {
            return None;
        },
    };
    proof {
        lemma_pow_positive(20, days);
    }
    let roi = isqrt_u128(roi_scaled / p20);
    Some(CampaignMetrics { views, clicks, conversions, total_spent, roi })
}

/// Predicting zero days ahead changes nothing: the growth factor is one,
/// and the return-on-investment ratio is its own exact square root.
pub proof fn lemma_predict_zero_days(m: CampaignMetrics)
    ensures
        spec_prediction_fits(m, 0),
        spec_predicted(m, 0) == m,
{
    assert(spec_pow(21, 0) == 1);
    assert(spec_pow(20, 0) == 1);
    assert(m.roi * m.roi <= u128::MAX) by (nonlinear_arith)
        requires
            m.roi <= u64::MAX,
    ;
    assert(spec_is_isqrt((m.roi * m.roi) as nat, m.roi as nat)) by (nonlinear_arith);
    lemma_isqrt_unique((m.roi * m.roi) as nat, m.roi as nat);
}

// ---------------------------------------------------------------------------
// Recording: content hash over the canonical serialization
// ---------------------------------------------------------------------------

/// Whether the observation's string field fits its length prefix.
pub open spec fn analytics_encodable(a: AnalyticsDataView) -> bool {
    str_encodable(a.campaign_id)
}

/// The canonical serialization of an observation: its fields in
/// declaration order, in the stable binary layout of the wire codec.
pub open spec fn analytics_encoded(a: AnalyticsDataView) -> Seq<u8> {
    enc_str(a.campaign_id) + enc_i64(a.timestamp) + metrics_encoded(a.metrics) + enc_u64(
        a.engagement_rate,
    ) + enc_u64(a.cost_per_click) + enc_u64(a.cost_per_conversion)
}

/// Serializes an observation canonically. Fails exactly when the campaign
/// identifier's byte length does not fit the `u32` length prefix.
pub fn encode_analytics_data(a: &AnalyticsData) -> (r: Result<Vec<u8>, BlockchainError>)
    ensures
        r matches Ok(v) ==> analytics_encodable(a@) && v@ == analytics_encoded(a@),
        r matches Err(e) ==> !analytics_encodable(a@) && e matches BlockchainError::SerializationError(_),
{
    let mut out: Vec<u8> = Vec::new();
    if !write_str(&mut out, a.campaign_id.as_str()) {
        return Err(
            BlockchainError::SerializationError(
                String::from_str("string field exceeds length prefix"),
            ),
        );
    }
    write_i64(&mut out, a.timestamp);
    let mut mbytes = encode_campaign_metrics(&a.metrics);
    out.append(&mut mbytes);
    write_u64(&mut out, a.engagement_rate);
    write_u64(&mut out, a.cost_per_click);
    write_u64(&mut out, a.cost_per_conversion);
    proof {
        assert(out@ =~= analytics_encoded(a@));
    }
    Ok(out)
}

/// The digest that the chosen 256-bit cryptographic hash assigns to a
/// byte string.
pub uninterp spec fn sha256_of(bytes: Seq<u8>) -> Seq<u8>;

/// Relies on `sha2::Sha256` (through the `Digest` trait): the digest is
/// 32 bytes and a function of the input bytes alone.
#[verifier::external_body]
fn sha256_digest(bytes: &Vec<u8>) -> (r: Vec<u8>)
    ensures
        r@ == sha256_of(bytes@),
        r@.len() == 32,
{
    let mut hasher = sha2::Sha256::new();
    hasher.update(bytes.as_slice());
    hasher.finalize().to_vec()
}

/// The lower-case hexadecimal digit for a value below sixteen.
pub open spec fn spec_hex_digit(n: u8) -> char {
    if n == 0 {
        '0'
    } else if n == 1 {
        '1'
    } else if n == 2 {
        '2'
    } else if n == 3 {
        '3'
    } else if n == 4 {
        '4'
    } else if n == 5 {
        '5'
    } else if n == 6 {
        '6'
    } else if n == 7 {
        '7'
    } else if n == 8 {
        '8'
    } else if n == 9 {
        '9'
    } else if n == 10 {
        'a'
    } else if n == 11 {
        'b'
    } else if n == 12 {
        'c'
    } else if n == 13 {
        'd'
    } else if n == 14 {
        'e'
    } else {
        'f'
    }
}

/// The lower-case hexadecimal rendering of a byte string, two digits per
/// byte, high digit first.
pub open spec fn spec_hex(bytes: Seq<u8>) -> Seq<char>
    decreases bytes.len(),
{
    if bytes.len() == 0 {
        Seq::empty()
    } else {
        spec_hex(bytes.drop_last()) + seq![
            spec_hex_digit(bytes.last() / 16),
            spec_hex_digit(bytes.last() % 16),
        ]
    }
}

/// Appends the hexadecimal digit for `n`.
fn push_hex_digit(out: &mut String, n: u8)
    requires
        n < 16,
    ensures
        final(out)@ == old(out)@ + seq![spec_hex_digit(n)],
{
    if n == 0 {
        proof {
            reveal_strlit("0");
        }
        out.append("0");
    } else if n == 1 {
        proof {
            reveal_strlit("1");
        }
        out.append("1");
    } else if n == 2 {
        proof {
            reveal_strlit("2");
        }
        out.append("2");
    } else if n == 3 {
        proof {
            reveal_strlit("3");
        }
        out.append("3");
    } else if n == 4 {
        proof {
            reveal_strlit("4");
        }
        out.append("4");
    } else if n == 5 {
        proof {
            reveal_strlit("5");
        }
        out.append("5");
    } else if n == 6 {
        proof {
            reveal_strlit("6");
        }
        out.append("6");
    } else if n == 7 {
        proof {
            reveal_strlit("7");
        }
        out.append("7");
    } else if n == 8 {
        proof {
            reveal_strlit("8");
        }
        out.append("8");
    } else if n == 9 {
        proof {
            reveal_strlit("9");
        }
        out.append("9");
    } else if n == 10 {
        proof {
            reveal_strlit("a");
        }
        out.append("a");
    } else if n == 11 {
        proof {
            reveal_strlit("b");
        }
        out.append("b");
    } else if n == 12 {
        proof {
            reveal_strlit("c");
        }
        out.append("c");
    } else if n == 13 {
        proof {
            reveal_strlit("d");
        }
        out.append("d");
    } else if n == 14 {
        proof {
            reveal_strlit("e");
        }
        out.append("e");
    } else {
        proof {
            reveal_strlit("f");
        }
        out.append("f");
    }
    proof {
        assert(out@ =~= old(out)@ + seq![spec_hex_digit(n)]);
    }
}

/// The lower-case hexadecimal rendering of `bytes`.
fn hex_string(bytes: &Vec<u8>) -> (r: String)
    ensures
        r@ == spec_hex(bytes@),
{
    let mut out = String::new();
    let mut i: usize = 0;
    while i < bytes.len()
        invariant
            i <= bytes.len(),
            out@ == spec_hex(bytes@.take(i as int)),
        decreases bytes.len() - i,
    {
        let b = bytes[i];
        push_hex_digit(&mut out, b / 16);
        push_hex_digit(&mut out, b % 16);
        proof {
            assert(bytes@.take(i + 1).drop_last() =~= bytes@.take(i as int));
            assert(bytes@.take(i + 1).last() == b);
            assert(out@ =~= spec_hex(bytes@.take(i + 1)));
        }
        i = i + 1;
    }
    proof {
        assert(bytes@.take(bytes@.len() as int) =~= bytes@);
    }
    out
}

/// Records an observation: computes the content hash over its canonical
/// serialization and returns the audit key, the hash in hexadecimal
/// behind a fixed prefix. The same logical observation always yields the
/// same key, so a caller can detect duplicates. Fails exactly when the
/// observation cannot be serialized.
pub fn record_analytics(data: &AnalyticsData) -> (r: Result<String, BlockchainError>)
    ensures
        r matches Ok(s) ==> analytics_encodable(data@) && s@ == "analytics_"@ + spec_hex(
            sha256_of(analytics_encoded(data@)),
        ),
        r matches Err(e) ==> !analytics_encodable(data@) && e matches BlockchainError::SerializationError(_),
{
    let encoded = match encode_analytics_data(data) {
        Ok(v) => v,
        Err(e) => {
            return Err(e);
        },
    };
    let digest = sha256_digest(&encoded);
    let hex = hex_string(&digest);
    let mut out = String::from_str("analytics_");
    out.append(hex.as_str());
    Ok(out)
}

} // verus!
