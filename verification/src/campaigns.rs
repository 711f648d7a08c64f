//! Campaign records and their wire codec.
//!
//! A campaign is created on-chain by serializing [`CampaignData`] behind a
//! create discriminator; metrics updates re-serialize only
//! [`CampaignMetrics`]. Decoding inverts the encoding exactly, and fails
//! cleanly on any byte string that no record encodes to.
//!
//! Ratios are held in fixed-point: the `roi` field of [`CampaignMetrics`]
//! is the return-on-investment ratio in millionths (`2_500_000` stands for
//! a 2.5x return).

use vstd::prelude::*;

use crate::codec::{
    enc_bool, enc_i64, enc_str, enc_u64, lemma_parse_enc_bool, lemma_parse_enc_i64,
    lemma_parse_enc_str, lemma_parse_enc_u64, parse_bool, parse_i64, parse_str, parse_u64,
    read_bool, read_i64, read_string, read_u64, str_encodable, write_bool, write_i64, write_str,
    write_u64, CLOSE_CAMPAIGN_TAG, CREATE_CAMPAIGN_TAG, UPDATE_METRICS_TAG,
};
use crate::errors::BlockchainError;

verus! {

use vstd::bytes::*;
use vstd::string::StringExecFns;

/// A campaign entity as persisted on-chain: identity, funding state, time
/// window, active flag and metadata locator.
#[derive(Debug, Clone, PartialEq)]
pub struct CampaignData {
    pub id: String,
    pub title: String,
    pub creator: String,
    pub target_amount: u64,
    pub current_amount: u64,
    pub start_time: i64,
    pub end_time: i64,
    pub is_active: bool,
    pub metadata_uri: String,
}

/// The mathematical value of a [`CampaignData`]: its strings as character
/// sequences, everything else as is.
#[verifier::ext_equal]
pub ghost struct CampaignDataView {
    pub id: Seq<char>,
    pub title: Seq<char>,
    pub creator: Seq<char>,
    pub target_amount: u64,
    pub current_amount: u64,
    pub start_time: i64,
    pub end_time: i64,
    pub is_active: bool,
    pub metadata_uri: Seq<char>,
}

impl View for CampaignData {
    type V = CampaignDataView;

    open spec fn view(&self) -> CampaignDataView {
        CampaignDataView {
            id: self.id@,
            title: self.title@,
            creator: self.creator@,
            target_amount: self.target_amount,
            current_amount: self.current_amount,
            start_time: self.start_time,
            end_time: self.end_time,
            is_active: self.is_active,
            metadata_uri: self.metadata_uri@,
        }
    }
}

/// Per-campaign engagement counters: view, click and conversion counts,
/// total spend in integer minor units, and the return-on-investment ratio
/// in millionths.
#[derive(Debug, Clone, Copy, PartialEq, Eq, Structural)]
pub struct CampaignMetrics {
    pub views: u64,
    pub clicks: u64,
    pub conversions: u64,
    pub total_spent: u64,
    pub roi: u64,
}

// ---------------------------------------------------------------------------
// Wire codec for campaign records
// ---------------------------------------------------------------------------

/// Whether every string field of the campaign fits its length prefix.
pub open spec fn campaign_encodable(c: CampaignDataView) -> bool {
    &&& str_encodable(c.id)
    &&& str_encodable(c.title)
    &&& str_encodable(c.creator)
    &&& str_encodable(c.metadata_uri)
}

/// The canonical encoding of a campaign record: its fields in declaration
/// order.
pub open spec fn campaign_encoded(c: CampaignDataView) -> Seq<u8> {
    enc_str(c.id) + enc_str(c.title) + enc_str(c.creator) + enc_u64(c.target_amount) + enc_u64(
        c.current_amount,
    ) + enc_i64(c.start_time) + enc_i64(c.end_time) + enc_bool(c.is_active) + enc_str(
        c.metadata_uri,
    )
}

/// The canonical encoding of a metrics record: its five counters in
/// declaration order.
pub open spec fn metrics_encoded(m: CampaignMetrics) -> Seq<u8> {
    enc_u64(m.views) + enc_u64(m.clicks) + enc_u64(m.conversions) + enc_u64(m.total_spent)
        + enc_u64(m.roi)
}

/// Parses a whole buffer as a campaign record; trailing bytes are refused.
pub open spec fn parse_campaign(d: Seq<u8>) -> Option<CampaignDataView> {
    match parse_str(d, 0) {
        None => None,
        Some((id, p1)) => match parse_str(d, p1) {
            None => None,
            Some((title, p2)) => match parse_str(d, p2) {
                None => None,
                Some((creator, p3)) => match parse_u64(d, p3) {
                    None => None,
                    Some((target_amount, p4)) => match parse_u64(d, p4) {
                        None => None,
                        Some((current_amount, p5)) => match parse_i64(d, p5) {
                            None => None,
                            Some((start_time, p6)) => match parse_i64(d, p6) {
                                None => None,
                                Some((end_time, p7)) => match parse_bool(d, p7) {
                                    None => None,
                                    Some((is_active, p8)) => match parse_str(d, p8) {
                                        None => None,
                                        Some((metadata_uri, p9)) => if p9 == d.len() {
                                            Some(
                                                CampaignDataView {
                                                    id,
                                                    title,
                                                    creator,
                                                    target_amount,
                                                    current_amount,
                                                    start_time,
                                                    end_time,
                                                    is_active,
                                                    metadata_uri,
                                                },
                                            )
                                        } else {
                                            None
                                        },
                                    },
                                },
                            },
                        },
                    },
                },
            },
        },
    }
}

/// Parses a whole buffer as a metrics record; trailing bytes are refused.
pub open spec fn parse_metrics(d: Seq<u8>) -> Option<CampaignMetrics> {
    match parse_u64(d, 0) {
        None => None,
        Some((views, p1)) => match parse_u64(d, p1) {
            None => None,
            Some((clicks, p2)) => match parse_u64(d, p2) {
                None => None,
                Some((conversions, p3)) => match parse_u64(d, p3) {
                    None => None,
                    Some((total_spent, p4)) => match parse_u64(d, p4) {
                        None => None,
                        Some((roi, p5)) => if p5 == d.len() {
                            Some(CampaignMetrics { views, clicks, conversions, total_spent, roi })
                        } else {
                            None
                        },
                    },
                },
            },
        },
    }
}

/// Serializes a campaign record in the stable binary layout. Fails exactly
/// when some string field's byte length does not fit the `u32` length
/// prefix.
pub fn encode_campaign_data(c: &CampaignData) -> (r: Result<Vec<u8>, BlockchainError>)
    ensures
        r matches Ok(v) ==> campaign_encodable(c@) && v@ == campaign_encoded(c@),
        r matches Err(e) ==> !campaign_encodable(c@) && e matches BlockchainError::SerializationError(_),
{
    let mut out: Vec<u8> = Vec::new();
    if !write_str(&mut out, c.id.as_str()) {
        return Err(string_too_long_error());
    }
    if !write_str(&mut out, c.title.as_str()) {
        return Err(string_too_long_error());
    }
    if !write_str(&mut out, c.creator.as_str()) {
        return Err(string_too_long_error());
    }
    write_u64(&mut out, c.target_amount);
    write_u64(&mut out, c.current_amount);
    write_i64(&mut out, c.start_time);
    write_i64(&mut out, c.end_time);
    write_bool(&mut out, c.is_active);
    if !write_str(&mut out, c.metadata_uri.as_str()) {
        return Err(string_too_long_error());
    }
    proof {
        assert(out@ =~= campaign_encoded(c@));
    }
    Ok(out)
}

/// Serializes a metrics record; metrics hold no strings, so encoding
/// cannot fail.
pub fn encode_campaign_metrics(m: &CampaignMetrics) -> (v: Vec<u8>)
    ensures
        v@ == metrics_encoded(*m),
{
    let mut out: Vec<u8> = Vec::new();
    write_u64(&mut out, m.views);
    write_u64(&mut out, m.clicks);
    write_u64(&mut out, m.conversions);
    write_u64(&mut out, m.total_spent);
    write_u64(&mut out, m.roi);
    proof {
        assert(out@ =~= metrics_encoded(*m));
    }
    out
}

/// The error returned when a string field exceeds the length prefix.
fn string_too_long_error() -> (e: BlockchainError)
    ensures
        e matches BlockchainError::SerializationError(_),
{
    BlockchainError::SerializationError(String::from_str("string field exceeds length prefix"))
}

/// The error returned when account bytes do not decode as the expected
/// record.
fn malformed_record_error() -> (e: BlockchainError)
    ensures
        e matches BlockchainError::SerializationError(_),
{
    BlockchainError::SerializationError(String::from_str("account bytes are not a valid record"))
}

/// Decodes account bytes as a campaign record. Succeeds exactly on the
/// buffers that a campaign record encodes to, and returns that record.
pub fn decode_campaign_data(d: &[u8]) -> (r: Result<CampaignData, BlockchainError>)
    ensures
        r matches Ok(c) ==> parse_campaign(d@) == Some(c@),
        r is Err ==> parse_campaign(d@) is None,
        r matches Err(e) ==> e matches BlockchainError::SerializationError(_),
{
    if let Some((id, p1)) = read_string(d, 0) {
        if let Some((title, p2)) = read_string(d, p1) {
            if let Some((creator, p3)) = read_string(d, p2) {
                if let Some((target_amount, p4)) = read_u64(d, p3) {
                    if let Some((current_amount, p5)) = read_u64(d, p4) {
                        if let Some((start_time, p6)) = read_i64(d, p5) {
                            if let Some((end_time, p7)) = read_i64(d, p6) {
                                if let Some((is_active, p8)) = read_bool(d, p7) {
                                    if let Some((metadata_uri, p9)) = read_string(d, p8) {
                                        if p9 == d.len() {
                                            return Ok(
                                                CampaignData {
                                                    id,
                                                    title,
                                                    creator,
                                                    target_amount,
                                                    current_amount,
                                                    start_time,
                                                    end_time,
                                                    is_active,
                                                    metadata_uri,
                                                },
                                            );
                                        }
                                    }
                                }
                            }
                        }
                    }
                }
            }
        }
    }
    Err(malformed_record_error())
}

/// Decodes a metrics record. Succeeds exactly on the buffers that a
/// metrics record encodes to, and returns that record.
pub fn decode_campaign_metrics(d: &[u8]) -> (r: Result<CampaignMetrics, BlockchainError>)
    ensures
        r matches Ok(m) ==> parse_metrics(d@) == Some(m),
        r is Err ==> parse_metrics(d@) is None,
        r matches Err(e) ==> e matches BlockchainError::SerializationError(_),
{
    if let Some((views, p1)) = read_u64(d, 0) {
        if let Some((clicks, p2)) = read_u64(d, p1) {
            if let Some((conversions, p3)) = read_u64(d, p2) {
                if let Some((total_spent, p4)) = read_u64(d, p3) {
                    if let Some((roi, p5)) = read_u64(d, p4) {
                        if p5 == d.len() {
                            return Ok(
                                CampaignMetrics { views, clicks, conversions, total_spent, roi },
                            );
                        }
                    }
                }
            }
        }
    }
    Err(malformed_record_error())
}

// ---------------------------------------------------------------------------
// Decoding inverts encoding
// ---------------------------------------------------------------------------

/// Encoding a campaign record and parsing the bytes back yields the same
/// record: the wire format loses nothing.
pub proof fn lemma_campaign_round_trip(c: CampaignDataView)
    requires
        campaign_encodable(c),
    ensures
        parse_campaign(campaign_encoded(c)) == Some(c),
{
    lemma_auto_spec_u32_to_from_le_bytes();
    lemma_auto_spec_u64_to_from_le_bytes();
    let e1 = enc_str(c.id);
    let e2 = enc_str(c.title);
    let e3 = enc_str(c.creator);
    let e4 = enc_u64(c.target_amount);
    let e5 = enc_u64(c.current_amount);
    let e6 = enc_i64(c.start_time);
    let e7 = enc_i64(c.end_time);
    let e8 = enc_bool(c.is_active);
    let e9 = enc_str(c.metadata_uri);
    let d = campaign_encoded(c);
    let p1 = e1.len() as int;
    let p2 = p1 + e2.len();
    let p3 = p2 + e3.len();
    let p4 = p3 + e4.len();
    let p5 = p4 + e5.len();
    let p6 = p5 + e6.len();
    let p7 = p6 + e7.len();
    let p8 = p7 + e8.len();
    let p9 = p8 + e9.len();
    assert(d.len() == p9);
    assert(d.subrange(0, p1) =~= e1);
    assert(d.subrange(p1, p2) =~= e2);
    assert(d.subrange(p2, p3) =~= e3);
    assert(d.subrange(p3, p4) =~= e4);
    assert(d.subrange(p4, p5) =~= e5);
    assert(d.subrange(p5, p6) =~= e6);
    assert(d.subrange(p6, p7) =~= e7);
    assert(d.subrange(p7, p8) =~= e8);
    assert(d.subrange(p8, p9) =~= e9);
    lemma_parse_enc_str(d, 0, c.id);
    lemma_parse_enc_str(d, p1, c.title);
    lemma_parse_enc_str(d, p2, c.creator);
    lemma_parse_enc_u64(d, p3, c.target_amount);
    lemma_parse_enc_u64(d, p4, c.current_amount);
    lemma_parse_enc_i64(d, p5, c.start_time);
    lemma_parse_enc_i64(d, p6, c.end_time);
    lemma_parse_enc_bool(d, p7, c.is_active);
    lemma_parse_enc_str(d, p8, c.metadata_uri);
    assert(parse_campaign(d) == Some(c));
}

/// Encoding a metrics record and parsing the bytes back yields the same
/// record.
pub proof fn lemma_metrics_round_trip(m: CampaignMetrics)
    ensures
        parse_metrics(metrics_encoded(m)) == Some(m),
{
    lemma_auto_spec_u64_to_from_le_bytes();
    let e1 = enc_u64(m.views);
    let e2 = enc_u64(m.clicks);
    let e3 = enc_u64(m.conversions);
    let e4 = enc_u64(m.total_spent);
    let e5 = enc_u64(m.roi);
    let d = metrics_encoded(m);
    let p1 = e1.len() as int;
    let p2 = p1 + e2.len();
    let p3 = p2 + e3.len();
    let p4 = p3 + e4.len();
    let p5 = p4 + e5.len();
    assert(d.len() == p5);
    assert(d.subrange(0, p1) =~= e1);
    assert(d.subrange(p1, p2) =~= e2);
    assert(d.subrange(p2, p3) =~= e3);
    assert(d.subrange(p3, p4) =~= e4);
    assert(d.subrange(p4, p5) =~= e5);
    lemma_parse_enc_u64(d, 0, m.views);
    lemma_parse_enc_u64(d, p1, m.clicks);
    lemma_parse_enc_u64(d, p2, m.conversions);
    lemma_parse_enc_u64(d, p3, m.total_spent);
    lemma_parse_enc_u64(d, p4, m.roi);
    assert(parse_metrics(d) == Some(m));
}

// ---------------------------------------------------------------------------
// Instruction payloads
// ---------------------------------------------------------------------------

/// The create-campaign instruction payload: the create discriminator byte
/// followed by the campaign record. Fails exactly when the record cannot
/// be encoded.
pub fn create_campaign_payload(c: &CampaignData) -> (r: Result<Vec<u8>, BlockchainError>)
    ensures
        r matches Ok(v) ==> campaign_encodable(c@) && v@ == seq![CREATE_CAMPAIGN_TAG]
            + campaign_encoded(c@),
        r matches Err(e) ==> !campaign_encodable(c@) && e matches BlockchainError::SerializationError(_),
{
    let mut encoded = match encode_campaign_data(c) {
        Ok(v) => v,
        Err(e) => {
            return Err(e);
        },
    };
    let mut out: Vec<u8> = Vec::new();
    out.push(CREATE_CAMPAIGN_TAG);
    out.append(&mut encoded);
    proof {
        assert(out@ =~= seq![CREATE_CAMPAIGN_TAG] + campaign_encoded(c@));
    }
    Ok(out)
}

/// The update-metrics instruction payload: the update discriminator byte
/// followed by the metrics record alone; the rest of the campaign record
/// is not touched.
pub fn update_metrics_payload(m: &CampaignMetrics) -> (v: Vec<u8>)
    ensures
        v@ == seq![UPDATE_METRICS_TAG] + metrics_encoded(*m),
{
    let mut encoded = encode_campaign_metrics(m);
    let mut out: Vec<u8> = Vec::new();
    out.push(UPDATE_METRICS_TAG);
    out.append(&mut encoded);
    proof {
        assert(out@ =~= seq![UPDATE_METRICS_TAG] + metrics_encoded(*m));
    }
    out
}

/// The close-campaign instruction payload: the close discriminator byte
/// alone.
pub fn close_campaign_payload() -> (v: Vec<u8>)
    ensures
        v@ == seq![CLOSE_CAMPAIGN_TAG],
{
    let mut out: Vec<u8> = Vec::new();
    out.push(CLOSE_CAMPAIGN_TAG);
    proof {
        assert(out@ =~= seq![CLOSE_CAMPAIGN_TAG]);
    }
    out
}

/// Builds the campaign record for a creation request: funding starts at
/// zero, the campaign is active, and the window runs from `now` for
/// `duration_days` whole days. Returns nothing exactly where the end
/// timestamp would overflow its field.
pub fn campaign_from_request(
    id: String,
    title: String,
    creator: String,
    target_amount: u64,
    duration_days: u32,
    metadata_uri: String,
    now: i64,
) -> (r: Option<CampaignData>)
    ensures
        r matches Some(c) ==> now + duration_days * 86400 <= i64::MAX && c@ == (CampaignDataView {
            id: id@,
            title: title@,
            creator: creator@,
            target_amount: target_amount,
            current_amount: 0u64,
            start_time: now,
            end_time: (now + duration_days * 86400) as i64,
            is_active: true,
            metadata_uri: metadata_uri@,
        }),
        r is None ==> now + duration_days * 86400 > i64::MAX,
{
    let delta: i64 = (duration_days as i64) * 86400;
    match now.checked_add(delta) {
        Some(end_time) => Some(
            CampaignData {
                id,
                title,
                creator,
                target_amount,
                current_amount: 0,
                start_time: now,
                end_time,
                is_active: true,
                metadata_uri,
            },
        ),
        None => None,
    }
}

} // verus!
