//! Reward programs, eligibility evaluation, and their wire codec.
//!
//! A reward program pairs a reward kind with a pool, a time window and
//! eligibility criteria. A user qualifies only while the program is active
//! and inside its window, and only when all three criteria thresholds are
//! met at once; no single criterion is sufficient alone.

use vstd::prelude::*;

use crate::campaigns::CampaignMetrics;
use crate::codec::{
    enc_bool, enc_i64, enc_str, enc_u32, enc_u64, lemma_parse_enc_bool, lemma_parse_enc_i64,
    lemma_parse_enc_str, lemma_parse_enc_u32, lemma_parse_enc_u64, lemma_subrange_of_subrange,
    parse_bool, parse_i64, parse_str, parse_u32, parse_u64, read_bool, read_i64, read_string,
    read_u32, read_u64, str_encodable, write_bool, write_i64, write_str, write_u32, write_u64,
    CLAIM_REWARD_TAG, CREATE_REWARD_PROGRAM_TAG,
};
use crate::errors::BlockchainError;

verus! {

use vstd::string::{StringExecFns, StrSliceExecFns};
use vstd::utf8::encode_utf8;

/// What a reward program pays out: a token amount from a mint, an amount
/// of the native currency, a reference to an NFT collection, or opaque
/// points.
#[derive(Debug, Clone, PartialEq)]
pub enum RewardType {
    Token { mint: String, amount: u64 },
    SOL { amount: u64 },
    NFT { collection: String },
    Points { amount: u32 },
}

/// The mathematical value of a [`RewardType`]: its strings as character
/// sequences.
#[verifier::ext_equal]
pub ghost enum RewardTypeView {
    Token { mint: Seq<char>, amount: u64 },
    SOL { amount: u64 },
    NFT { collection: Seq<char> },
    Points { amount: u32 },
}

impl View for RewardType {
    type V = RewardTypeView;

    open spec fn view(&self) -> RewardTypeView {
        match self {
            RewardType::Token { mint, amount } => RewardTypeView::Token {
                mint: mint@,
                amount: *amount,
            },
            RewardType::SOL { amount } => RewardTypeView::SOL { amount: *amount },
            RewardType::NFT { collection } => RewardTypeView::NFT { collection: collection@ },
            RewardType::Points { amount } => RewardTypeView::Points { amount: *amount },
        }
    }
}

/// The thresholds a user's metrics must all reach to qualify: minimum
/// engagement (views plus clicks), minimum conversions, and minimum spend,
/// plus a verification-required flag.
#[derive(Debug, Clone, Copy, PartialEq, Eq, Structural)]
pub struct RewardCriteria {
    pub min_engagement: u64,
    pub min_conversions: u64,
    pub min_spend: u64,
    pub requires_verification: bool,
}

/// A reward program: identity and description, reward kind, pool sizes,
/// time window, criteria and active flag. The remaining pool is expected
/// to shrink as rewards are claimed, but this layer never decrements it;
/// that is a chain-side effect.
#[derive(Debug, Clone, PartialEq)]
pub struct RewardProgram {
    pub id: String,
    pub name: String,
    pub description: String,
    pub reward_type: RewardType,
    pub total_pool: u64,
    pub remaining_pool: u64,
    pub start_time: i64,
    pub end_time: i64,
    pub criteria: RewardCriteria,
    pub is_active: bool,
}

/// The mathematical value of a [`RewardProgram`].
#[verifier::ext_equal]
pub ghost struct RewardProgramView {
    pub id: Seq<char>,
    pub name: Seq<char>,
    pub description: Seq<char>,
    pub reward_type: RewardTypeView,
    pub total_pool: u64,
    pub remaining_pool: u64,
    pub start_time: i64,
    pub end_time: i64,
    pub criteria: RewardCriteria,
    pub is_active: bool,
}

impl View for RewardProgram {
    type V = RewardProgramView;

    open spec fn view(&self) -> RewardProgramView {
        RewardProgramView {
            id: self.id@,
            name: self.name@,
            description: self.description@,
            reward_type: self.reward_type@,
            total_pool: self.total_pool,
            remaining_pool: self.remaining_pool,
            start_time: self.start_time,
            end_time: self.end_time,
            criteria: self.criteria,
            is_active: self.is_active,
        }
    }
}

/// A reward earned by a user: the program, the reward kind as it stood at
/// award time, and the claim state. The reward is unclaimed while
/// `claimed_at` is absent.
#[derive(Debug, Clone, PartialEq)]
pub struct UserReward {
    pub user_id: String,
    pub program_id: String,
    pub reward_type: RewardType,
    pub earned_at: i64,
    pub claimed_at: Option<i64>,
    pub transaction_signature: Option<String>,
}

/// The mathematical value of a [`UserReward`].
#[verifier::ext_equal]
pub ghost struct UserRewardView {
    pub user_id: Seq<char>,
    pub program_id: Seq<char>,
    pub reward_type: RewardTypeView,
    pub earned_at: i64,
    pub claimed_at: Option<i64>,
    pub transaction_signature: Option<Seq<char>>,
}

impl View for UserReward {
    type V = UserRewardView;

    open spec fn view(&self) -> UserRewardView {
        UserRewardView {
            user_id: self.user_id@,
            program_id: self.program_id@,
            reward_type: self.reward_type@,
            earned_at: self.earned_at,
            claimed_at: self.claimed_at,
            transaction_signature: match self.transaction_signature {
                Some(s) => Some(s@),
                None => None,
            },
        }
    }
}

impl UserReward {
    /// A reward is unclaimed while its claim timestamp is absent.
    pub fn is_unclaimed(&self) -> (r: bool)
        ensures
            r == (self.claimed_at is None),
    {
        self.claimed_at.is_none()
    }
}

// ---------------------------------------------------------------------------
// Eligibility
// ---------------------------------------------------------------------------

/// A user qualifies for a program at time `now` exactly when the program
/// is active, `now` lies inside its window, and all three criteria hold:
/// `views + clicks` reach the engagement minimum, conversions reach their
/// minimum, and total spend reaches its minimum.
pub open spec fn spec_is_eligible(p: RewardProgramView, m: CampaignMetrics, now: i64) -> bool {
    &&& p.is_active
    &&& p.start_time <= now
    &&& now <= p.end_time
    &&& m.views + m.clicks >= p.criteria.min_engagement
    &&& m.conversions >= p.criteria.min_conversions
    &&& m.total_spent >= p.criteria.min_spend
}

/// Whether the user's metrics qualify for `program` at time `now`.
pub fn check_reward_eligibility(
    program: &RewardProgram,
    user_metrics: &CampaignMetrics,
    now: i64,
) -> (r: bool)
    ensures
        r == spec_is_eligible(program@, *user_metrics, now),
{
    if !program.is_active {
        return false;
    }
    if now < program.start_time || now > program.end_time {
        return false;
    }
    let engagement: u128 = user_metrics.views as u128 + user_metrics.clicks as u128;
    let meets_engagement = engagement >= program.criteria.min_engagement as u128;
    let meets_conversions = user_metrics.conversions >= program.criteria.min_conversions;
    let meets_spend = user_metrics.total_spent >= program.criteria.min_spend;
    meets_engagement && meets_conversions && meets_spend
}

/// Relies on `chrono::Utc::now` (`timestamp`): the current Unix time in
/// seconds. Nothing further is assumed of the clock.
#[verifier::external_body]
fn current_unix_timestamp() -> i64 {
    chrono::Utc::now().timestamp()
}

/// Whether the user's metrics qualify for `program` at the current time.
/// The clock's reading cannot be pinned down, so the contract states what
/// holds whatever time came back: the answer is the eligibility verdict at
/// some time, and a positive answer guarantees every time-independent
/// criterion.
pub fn check_reward_eligibility_now(program: &RewardProgram, user_metrics: &CampaignMetrics) -> (r:
    bool)
    ensures
        exists|t: i64| r == spec_is_eligible(program@, *user_metrics, t),
        r ==> program@.is_active && user_metrics.views + user_metrics.clicks
            >= program@.criteria.min_engagement && user_metrics.conversions
            >= program@.criteria.min_conversions && user_metrics.total_spent
            >= program@.criteria.min_spend,
{
    let now = current_unix_timestamp();
    let r = check_reward_eligibility(program, user_metrics, now);
    proof {
        assert(r == spec_is_eligible(program@, *user_metrics, now));
    }
    r
}

// ---------------------------------------------------------------------------
// Potential rewards
// ---------------------------------------------------------------------------

/// The programs of `programs` the user qualifies for at `now`, in order,
/// each paired with its reward kind.
pub open spec fn spec_potential_rewards(
    programs: Seq<RewardProgramView>,
    m: CampaignMetrics,
    now: i64,
) -> Seq<(Seq<char>, RewardTypeView)>
    decreases programs.len(),
{
    if programs.len() == 0 {
        Seq::empty()
    } else {
        let rest = spec_potential_rewards(programs.drop_last(), m, now);
        let p = programs.last();
        if spec_is_eligible(p, m, now) {
            rest.push((p.id, p.reward_type))
        } else {
            rest
        }
    }
}

/// A copy of a reward kind with the same mathematical value.
fn clone_reward_type(t: &RewardType) -> (r: RewardType)
    ensures
        r@ == t@,
{
    match t {
        RewardType::Token { mint, amount } => RewardType::Token {
            mint: mint.clone(),
            amount: *amount,
        },
        RewardType::SOL { amount } => RewardType::SOL { amount: *amount },
        RewardType::NFT { collection } => RewardType::NFT { collection: collection.clone() },
        RewardType::Points { amount } => RewardType::Points { amount: *amount },
    }
}

/// Enumerates the currently qualifying subset of `programs` for a user
/// with the given metrics at time `now`, pairing each program identifier
/// with its reward kind.
pub fn calculate_potential_rewards(
    programs: &Vec<RewardProgram>,
    user_metrics: &CampaignMetrics,
    now: i64,
) -> (r: Vec<(String, RewardType)>)
    ensures
        r@.map_values(|pr: (String, RewardType)| (pr.0@, pr.1@)) == spec_potential_rewards(
            programs@.map_values(|p: RewardProgram| p@),
            *user_metrics,
            now,
        ),
{
    let ghost views = programs@.map_values(|p: RewardProgram| p@);
    let mut out: Vec<(String, RewardType)> = Vec::new();
    let mut i: usize = 0;
    while i < programs.len()
        invariant
            i <= programs.len(),
            views == programs@.map_values(|p: RewardProgram| p@),
            out@.map_values(|pr: (String, RewardType)| (pr.0@, pr.1@)) == spec_potential_rewards(
                views.take(i as int),
                *user_metrics,
                now,
            ),
        decreases programs.len() - i,
    {
        let p = &programs[i];
        proof {
            assert(views.take(i + 1).drop_last() =~= views.take(i as int));
            assert(views.take(i + 1).last() == p@);
        }
        if check_reward_eligibility(p, user_metrics, now) {
            out.push((p.id.clone(), clone_reward_type(&p.reward_type)));
        }
        proof {
            assert(out@.map_values(|pr: (String, RewardType)| (pr.0@, pr.1@))
                =~= spec_potential_rewards(views.take(i + 1), *user_metrics, now));
        }
        i = i + 1;
    }
    proof {
        assert(views.take(programs@.len() as int) =~= views);
    }
    out
}

// ---------------------------------------------------------------------------
// Wire codec for reward records
// ---------------------------------------------------------------------------

/// Whether every string inside the reward kind fits its length prefix.
pub open spec fn reward_type_encodable(t: RewardTypeView) -> bool {
    match t {
        RewardTypeView::Token { mint, .. } => str_encodable(mint),
        RewardTypeView::SOL { .. } => true,
        RewardTypeView::NFT { collection } => str_encodable(collection),
        RewardTypeView::Points { .. } => true,
    }
}

/// The canonical encoding of a reward kind: a one-byte variant tag in
/// declaration order, then the variant's fields.
pub open spec fn reward_type_encoded(t: RewardTypeView) -> Seq<u8> {
    match t {
        RewardTypeView::Token { mint, amount } => seq![0u8] + enc_str(mint) + enc_u64(amount),
        RewardTypeView::SOL { amount } => seq![1u8] + enc_u64(amount),
        RewardTypeView::NFT { collection } => seq![2u8] + enc_str(collection),
        RewardTypeView::Points { amount } => seq![3u8] + enc_u32(amount),
    }
}

/// Parses a reward kind at `pos`; unrecognized variant tags are refused.
pub open spec fn parse_reward_type(d: Seq<u8>, pos: int) -> Option<(RewardTypeView, int)> {
    if 0 <= pos && pos + 1 <= d.len() {
        if d[pos] == 0u8 {
            match parse_str(d, pos + 1) {
                Some((mint, p)) => match parse_u64(d, p) {
                    Some((amount, p2)) => Some((RewardTypeView::Token { mint, amount }, p2)),
                    None => None,
                },
                None => None,
            }
        } else if d[pos] == 1u8 {
            match parse_u64(d, pos + 1) {
                Some((amount, p)) => Some((RewardTypeView::SOL { amount }, p)),
                None => None,
            }
        } else if d[pos] == 2u8 {
            match parse_str(d, pos + 1) {
                Some((collection, p)) => Some((RewardTypeView::NFT { collection }, p)),
                None => None,
            }
        } else if d[pos] == 3u8 {
            match parse_u32(d, pos + 1) {
                Some((amount, p)) => Some((RewardTypeView::Points { amount }, p)),
                None => None,
            }
        } else {
            None
        }
    } else {
        None
    }
}

/// The canonical encoding of eligibility criteria: the three thresholds
/// then the verification flag.
pub open spec fn criteria_encoded(c: RewardCriteria) -> Seq<u8> {
    enc_u64(c.min_engagement) + enc_u64(c.min_conversions) + enc_u64(c.min_spend) + enc_bool(
        c.requires_verification,
    )
}

/// Parses eligibility criteria at `pos`.
pub open spec fn parse_criteria(d: Seq<u8>, pos: int) -> Option<(RewardCriteria, int)> {
    match parse_u64(d, pos) {
        None => None,
        Some((min_engagement, p1)) => match parse_u64(d, p1) {
            None => None,
            Some((min_conversions, p2)) => match parse_u64(d, p2) {
                None => None,
                Some((min_spend, p3)) => match parse_bool(d, p3) {
                    None => None,
                    Some((requires_verification, p4)) => Some(
                        (
                            RewardCriteria {
                                min_engagement,
                                min_conversions,
                                min_spend,
                                requires_verification,
                            },
                            p4,
                        ),
                    ),
                },
            },
        },
    }
}

/// Whether every string field of the program fits its length prefix.
pub open spec fn program_encodable(p: RewardProgramView) -> bool {
    &&& str_encodable(p.id)
    &&& str_encodable(p.name)
    &&& str_encodable(p.description)
    &&& reward_type_encodable(p.reward_type)
}

/// The canonical encoding of a reward program record: its fields in
/// declaration order.
pub open spec fn program_encoded(p: RewardProgramView) -> Seq<u8> {
    enc_str(p.id) + enc_str(p.name) + enc_str(p.description) + reward_type_encoded(p.reward_type)
        + enc_u64(p.total_pool) + enc_u64(p.remaining_pool) + enc_i64(p.start_time) + enc_i64(
        p.end_time,
    ) + criteria_encoded(p.criteria) + enc_bool(p.is_active)
}

/// Parses a whole buffer as a reward program record; trailing bytes are
/// refused.
pub open spec fn parse_program(d: Seq<u8>) -> Option<RewardProgramView> {
    match parse_str(d, 0) {
        None => None,
        Some((id, p1)) => match parse_str(d, p1) {
            None => None,
            Some((name, p2)) => match parse_str(d, p2) {
                None => None,
                Some((description, p3)) => match parse_reward_type(d, p3) {
                    None => None,
                    Some((reward_type, p4)) => match parse_u64(d, p4) {
                        None => None,
                        Some((total_pool, p5)) => match parse_u64(d, p5) {
                            None => None,
                            Some((remaining_pool, p6)) => match parse_i64(d, p6) {
                                None => None,
                                Some((start_time, p7)) => match parse_i64(d, p7) {
                                    None => None,
                                    Some((end_time, p8)) => match parse_criteria(d, p8) {
                                        None => None,
                                        Some((criteria, p9)) => match parse_bool(d, p9) {
                                            None => None,
                                            Some((is_active, p10)) => if p10 == d.len() {
                                                Some(
                                                    RewardProgramView {
                                                        id,
                                                        name,
                                                        description,
                                                        reward_type,
                                                        total_pool,
                                                        remaining_pool,
                                                        start_time,
                                                        end_time,
                                                        criteria,
                                                        is_active,
                                                    },
                                                )
                                            } else {
                                                None
                                            },
                                        },
                                    },
                                },
                            },
                        },
                    },
                },
            },
        },
    }
}

/// Serializes a reward kind. Fails exactly when a string inside it does
/// not fit its length prefix.
pub fn encode_reward_type(t: &RewardType) -> (r: Result<Vec<u8>, BlockchainError>)
    ensures
        r matches Ok(v) ==> reward_type_encodable(t@) && v@ == reward_type_encoded(t@),
        r matches Err(e) ==> !reward_type_encodable(t@) && e matches BlockchainError::SerializationError(_),
{
    let mut out: Vec<u8> = Vec::new();
    match t {
        RewardType::Token { mint, amount } => {
            out.push(0u8);
            if !write_str(&mut out, mint.as_str()) {
                return Err(reward_string_too_long_error());
            }
            write_u64(&mut out, *amount);
            proof {
                assert(out@ =~= reward_type_encoded(t@));
            }
        },
        RewardType::SOL { amount } => {
            out.push(1u8);
            write_u64(&mut out, *amount);
            proof {
                assert(out@ =~= reward_type_encoded(t@));
            }
        },
        RewardType::NFT { collection } => {
            out.push(2u8);
            if !write_str(&mut out, collection.as_str()) {
                return Err(reward_string_too_long_error());
            }
            proof {
                assert(out@ =~= reward_type_encoded(t@));
            }
        },
        RewardType::Points { amount } => {
            out.push(3u8);
            write_u32(&mut out, *amount);
            proof {
                assert(out@ =~= reward_type_encoded(t@));
            }
        },
    }
    Ok(out)
}

/// The error returned when a string field exceeds the length prefix.
fn reward_string_too_long_error() -> (e: BlockchainError)
    ensures
        e matches BlockchainError::SerializationError(_),
{
    BlockchainError::SerializationError(String::from_str("string field exceeds length prefix"))
}

/// Reads a reward kind at `pos`.
pub fn read_reward_type(d: &[u8], pos: usize) -> (r: Option<(RewardType, usize)>)
    ensures
        r matches Some((t, p)) ==> parse_reward_type(d@, pos as int) == Some((t@, p as int)),
        r is None ==> parse_reward_type(d@, pos as int) is None,
{
    if pos >= d.len() {
        return None;
    }
    let tag = d[pos];
    if tag == 0u8 {
        match read_string(d, pos + 1) {
            Some((mint, p)) => match read_u64(d, p) {
                Some((amount, p2)) => Some((RewardType::Token { mint, amount }, p2)),
                None => None,
            },
            None => None,
        }
    } else if tag == 1u8 {
        match read_u64(d, pos + 1) {
            Some((amount, p)) => Some((RewardType::SOL { amount }, p)),
            None => None,
        }
    } else if tag == 2u8 {
        match read_string(d, pos + 1) {
            Some((collection, p)) => Some((RewardType::NFT { collection }, p)),
            None => None,
        }
    } else if tag == 3u8 {
        match read_u32(d, pos + 1) {
            Some((amount, p)) => Some((RewardType::Points { amount }, p)),
            None => None,
        }
    } else {
        None
    }
}

/// Reads eligibility criteria at `pos`.
pub fn read_criteria(d: &[u8], pos: usize) -> (r: Option<(RewardCriteria, usize)>)
    ensures
        r matches Some((c, p)) ==> parse_criteria(d@, pos as int) == Some((c, p as int)),
        r is None ==> parse_criteria(d@, pos as int) is None,
{
    match read_u64(d, pos) {
        Some((min_engagement, p1)) => match read_u64(d, p1) {
            Some((min_conversions, p2)) => match read_u64(d, p2) {
                Some((min_spend, p3)) => match read_bool(d, p3) {
                    Some((requires_verification, p4)) => Some(
                        (
                            RewardCriteria {
                                min_engagement,
                                min_conversions,
                                min_spend,
                                requires_verification,
                            },
                            p4,
                        ),
                    ),
                    None => None,
                },
                None => None,
            },
            None => None,
        },
        None => None,
    }
}

/// Serializes a reward program record in the stable binary layout. Fails
/// exactly when some string field's byte length does not fit the `u32`
/// length prefix.
pub fn encode_reward_program(p: &RewardProgram) -> (r: Result<Vec<u8>, BlockchainError>)
    ensures
        r matches Ok(v) ==> program_encodable(p@) && v@ == program_encoded(p@),
        r matches Err(e) ==> !program_encodable(p@) && e matches BlockchainError::SerializationError(_),
{
    let mut out: Vec<u8> = Vec::new();
    if !write_str(&mut out, p.id.as_str()) {
        return Err(reward_string_too_long_error());
    }
    if !write_str(&mut out, p.name.as_str()) {
        return Err(reward_string_too_long_error());
    }
    if !write_str(&mut out, p.description.as_str()) {
        return Err(reward_string_too_long_error());
    }
    let mut rt = match encode_reward_type(&p.reward_type) {
        Ok(v) => v,
        Err(e) => {
            return Err(e);
        },
    };
    out.append(&mut rt);
    write_u64(&mut out, p.total_pool);
    write_u64(&mut out, p.remaining_pool);
    write_i64(&mut out, p.start_time);
    write_i64(&mut out, p.end_time);
    write_u64(&mut out, p.criteria.min_engagement);
    write_u64(&mut out, p.criteria.min_conversions);
    write_u64(&mut out, p.criteria.min_spend);
    write_bool(&mut out, p.criteria.requires_verification);
    write_bool(&mut out, p.is_active);
    proof {
        assert(out@ =~= program_encoded(p@));
    }
    Ok(out)
}

/// The error returned when account bytes do not decode as the expected
/// record.
fn malformed_program_error() -> (e: BlockchainError)
    ensures
        e matches BlockchainError::SerializationError(_),
{
    BlockchainError::SerializationError(String::from_str("account bytes are not a valid record"))
}

/// Decodes account bytes as a reward program record. Succeeds exactly on
/// the buffers that a program record encodes to, and returns that record.
pub fn decode_reward_program(d: &[u8]) -> (r: Result<RewardProgram, BlockchainError>)
    ensures
        r matches Ok(p) ==> parse_program(d@) == Some(p@),
        r is Err ==> parse_program(d@) is None,
        r matches Err(e) ==> e matches BlockchainError::SerializationError(_),
{
    if let Some((id, p1)) = read_string(d, 0) {
        if let Some((name, p2)) = read_string(d, p1) {
            if let Some((description, p3)) = read_string(d, p2) {
                if let Some((reward_type, p4)) = read_reward_type(d, p3) {
                    if let Some((total_pool, p5)) = read_u64(d, p4) {
                        if let Some((remaining_pool, p6)) = read_u64(d, p5) {
                            if let Some((start_time, p7)) = read_i64(d, p6) {
                                if let Some((end_time, p8)) = read_i64(d, p7) {
                                    if let Some((criteria, p9)) = read_criteria(d, p8) {
                                        if let Some((is_active, p10)) = read_bool(d, p9) {
                                            if p10 == d.len() {
                                                return Ok(
                                                    RewardProgram {
                                                        id,
                                                        name,
                                                        description,
                                                        reward_type,
                                                        total_pool,
                                                        remaining_pool,
                                                        start_time,
                                                        end_time,
                                                        criteria,
                                                        is_active,
                                                    },
                                                );
                                            }
                                        }
                                    }
                                }
                            }
                        }
                    }
                }
            }
        }
    }
    Err(malformed_program_error())
}

// ---------------------------------------------------------------------------
// Decoding inverts encoding
// ---------------------------------------------------------------------------

/// Parsing inverts the reward-kind encoding wherever the bytes of the
/// encoding stand in a buffer.
pub proof fn lemma_parse_enc_reward_type(d: Seq<u8>, pos: int, t: RewardTypeView)
    requires
        0 <= pos,
        reward_type_encodable(t),
        pos + reward_type_encoded(t).len() <= d.len(),
        d.subrange(pos, pos + reward_type_encoded(t).len() as int) == reward_type_encoded(t),
    ensures
        parse_reward_type(d, pos) == Some((t, pos + reward_type_encoded(t).len())),
{
    vstd::bytes::lemma_auto_spec_u32_to_from_le_bytes();
    vstd::bytes::lemma_auto_spec_u64_to_from_le_bytes();
    let e = reward_type_encoded(t);
    assert(d[pos] == e[0]) by {
        assert(d.subrange(pos, pos + e.len() as int)[0] == e[0]);
    }
    match t {
        RewardTypeView::Token { mint, amount } => {
            let ls = enc_str(mint).len() as int;
            assert(e.subrange(1, 1 + ls) =~= enc_str(mint));
            lemma_subrange_of_subrange(d, pos, e, 1, 1 + ls);
            lemma_parse_enc_str(d, pos + 1, mint);
            assert(e.subrange(1 + ls, e.len() as int) =~= enc_u64(amount));
            lemma_subrange_of_subrange(d, pos, e, 1 + ls, e.len() as int);
            lemma_parse_enc_u64(d, pos + 1 + ls, amount);
        },
        RewardTypeView::SOL { amount } => {
            assert(e.subrange(1, e.len() as int) =~= enc_u64(amount));
            lemma_subrange_of_subrange(d, pos, e, 1, e.len() as int);
            lemma_parse_enc_u64(d, pos + 1, amount);
        },
        RewardTypeView::NFT { collection } => {
            assert(e.subrange(1, e.len() as int) =~= enc_str(collection));
            lemma_subrange_of_subrange(d, pos, e, 1, e.len() as int);
            lemma_parse_enc_str(d, pos + 1, collection);
        },
        RewardTypeView::Points { amount } => {
            assert(e.subrange(1, e.len() as int) =~= enc_u32(amount));
            lemma_subrange_of_subrange(d, pos, e, 1, e.len() as int);
            lemma_parse_enc_u32(d, pos + 1, amount);
        },
    }
}

/// Parsing inverts the criteria encoding wherever the bytes of the
/// encoding stand in a buffer.
pub proof fn lemma_parse_enc_criteria(d: Seq<u8>, pos: int, c: RewardCriteria)
    requires
        0 <= pos,
        pos + criteria_encoded(c).len() <= d.len(),
        d.subrange(pos, pos + criteria_encoded(c).len() as int) == criteria_encoded(c),
    ensures
        parse_criteria(d, pos) == Some((c, pos + criteria_encoded(c).len())),
{
    vstd::bytes::lemma_auto_spec_u64_to_from_le_bytes();
    let e = criteria_encoded(c);
    let q1 = enc_u64(c.min_engagement).len() as int;
    let q2 = q1 + enc_u64(c.min_conversions).len();
    let q3 = q2 + enc_u64(c.min_spend).len();
    let q4 = q3 + enc_bool(c.requires_verification).len();
    assert(e.subrange(0, q1) =~= enc_u64(c.min_engagement));
    assert(e.subrange(q1, q2) =~= enc_u64(c.min_conversions));
    assert(e.subrange(q2, q3) =~= enc_u64(c.min_spend));
    assert(e.subrange(q3, q4) =~= enc_bool(c.requires_verification));
    lemma_subrange_of_subrange(d, pos, e, 0, q1);
    lemma_subrange_of_subrange(d, pos, e, q1, q2);
    lemma_subrange_of_subrange(d, pos, e, q2, q3);
    lemma_subrange_of_subrange(d, pos, e, q3, q4);
    lemma_parse_enc_u64(d, pos, c.min_engagement);
    lemma_parse_enc_u64(d, pos + q1, c.min_conversions);
    lemma_parse_enc_u64(d, pos + q2, c.min_spend);
    lemma_parse_enc_bool(d, pos + q3, c.requires_verification);
}

/// Encoding a reward program record and parsing the bytes back yields the
/// same record: the wire format loses nothing.
#[verifier::rlimit(80)]
pub proof fn lemma_program_round_trip(p: RewardProgramView)
    requires
        program_encodable(p),
    ensures
        parse_program(program_encoded(p)) == Some(p),
{
    vstd::bytes::lemma_auto_spec_u32_to_from_le_bytes();
    vstd::bytes::lemma_auto_spec_u64_to_from_le_bytes();
    let e1 = enc_str(p.id);
    let e2 = enc_str(p.name);
    let e3 = enc_str(p.description);
    let e4 = reward_type_encoded(p.reward_type);
    let e5 = enc_u64(p.total_pool);
    let e6 = enc_u64(p.remaining_pool);
    let e7 = enc_i64(p.start_time);
    let e8 = enc_i64(p.end_time);
    let e9 = criteria_encoded(p.criteria);
    let e10 = enc_bool(p.is_active);
    let d = program_encoded(p);
    let p1 = e1.len() as int;
    let p2 = p1 + e2.len();
    let p3 = p2 + e3.len();
    let p4 = p3 + e4.len();
    let p5 = p4 + e5.len();
    let p6 = p5 + e6.len();
    let p7 = p6 + e7.len();
    let p8 = p7 + e8.len();
    let p9 = p8 + e9.len();
    let p10 = p9 + e10.len();
    assert(d.len() == p10);
    assert(d.subrange(0, p1) =~= e1);
    assert(d.subrange(p1, p2) =~= e2);
    assert(d.subrange(p2, p3) =~= e3);
    assert(d.subrange(p3, p4) =~= e4);
    assert(d.subrange(p4, p5) =~= e5);
    assert(d.subrange(p5, p6) =~= e6);
    assert(d.subrange(p6, p7) =~= e7);
    assert(d.subrange(p7, p8) =~= e8);
    assert(d.subrange(p8, p9) =~= e9);
    assert(d.subrange(p9, p10) =~= e10);
    lemma_parse_enc_str(d, 0, p.id);
    lemma_parse_enc_str(d, p1, p.name);
    lemma_parse_enc_str(d, p2, p.description);
    lemma_parse_enc_reward_type(d, p3, p.reward_type);
    lemma_parse_enc_u64(d, p4, p.total_pool);
    lemma_parse_enc_u64(d, p5, p.remaining_pool);
    lemma_parse_enc_i64(d, p6, p.start_time);
    lemma_parse_enc_i64(d, p7, p.end_time);
    lemma_parse_enc_criteria(d, p8, p.criteria);
    lemma_parse_enc_bool(d, p9, p.is_active);
    assert(parse_program(d) == Some(p));
}

// ---------------------------------------------------------------------------
// Instruction payloads
// ---------------------------------------------------------------------------

/// The create-reward-program instruction payload: the create discriminator
/// byte followed by the program record. Fails exactly when the record
/// cannot be encoded.
pub fn create_reward_program_payload(p: &RewardProgram) -> (r: Result<Vec<u8>, BlockchainError>)
    ensures
        r matches Ok(v) ==> program_encodable(p@) && v@ == seq![CREATE_REWARD_PROGRAM_TAG]
            + program_encoded(p@),
        r matches Err(e) ==> !program_encodable(p@) && e matches BlockchainError::SerializationError(_),
{
    let mut encoded = match encode_reward_program(p) {
        Ok(v) => v,
        Err(e) => {
            return Err(e);
        },
    };
    let mut out: Vec<u8> = Vec::new();
    out.push(CREATE_REWARD_PROGRAM_TAG);
    out.append(&mut encoded);
    proof {
        assert(out@ =~= seq![CREATE_REWARD_PROGRAM_TAG] + program_encoded(p@));
    }
    Ok(out)
}

/// The claim-reward instruction payload: the claim discriminator byte
/// followed by the raw UTF-8 bytes of the user identifier.
pub fn claim_reward_payload(user_id: &str) -> (v: Vec<u8>)
    ensures
        v@ == seq![CLAIM_REWARD_TAG] + encode_utf8(user_id@),
{
    let mut out: Vec<u8> = Vec::new();
    out.push(CLAIM_REWARD_TAG);
    let mut bytes = user_id.as_bytes_vec();
    out.append(&mut bytes);
    proof {
        assert(out@ =~= seq![CLAIM_REWARD_TAG] + encode_utf8(user_id@));
    }
    out
}

} // verus!
