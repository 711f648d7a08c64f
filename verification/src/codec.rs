//! Canonical binary wire format for on-chain writes.
//!
//! Every value is encoded in a stable little-endian layout: integers as
//! fixed-width little-endian bytes, booleans as a single `0`/`1` byte, and
//! strings as a `u32` byte length followed by the UTF-8 bytes. An
//! instruction payload is a single leading discriminator byte identifying
//! the operation, followed by the encoding of the operation's record.
//!
//! Each primitive has a specification-level encoder (`enc_*`), a
//! specification-level parser (`parse_*`), an executable writer/reader
//! proved against them, and a lemma showing that the parser inverts the
//! encoder. The record-level codecs in the campaign and reward modules are
//! built from these.

use vstd::prelude::*;

verus! {

use vstd::bytes::*;
use vstd::utf8::*;
use vstd::slice::slice_subrange;
use vstd::string::StrSliceExecFns;

/// Discriminator byte of a create-campaign instruction payload.
pub const CREATE_CAMPAIGN_TAG: u8 = 0;

/// Discriminator byte of an update-metrics instruction payload.
pub const UPDATE_METRICS_TAG: u8 = 1;

/// Discriminator byte of a close-campaign instruction payload.
pub const CLOSE_CAMPAIGN_TAG: u8 = 2;

/// Discriminator byte of a create-reward-program instruction payload.
pub const CREATE_REWARD_PROGRAM_TAG: u8 = 3;

/// Discriminator byte of a claim-reward instruction payload.
pub const CLAIM_REWARD_TAG: u8 = 4;

/// The operations an instruction payload can carry, told apart by the
/// leading discriminator byte.
#[derive(Debug, Clone, Copy, PartialEq, Eq, Structural)]
pub enum InstructionKind {
    CreateCampaign,
    UpdateMetrics,
    CloseCampaign,
    CreateRewardProgram,
    ClaimReward,
}

/// Which operation a discriminator byte denotes; unrecognized values denote
/// none.
pub open spec fn spec_instruction_kind(tag: u8) -> Option<InstructionKind> {
    if tag == CREATE_CAMPAIGN_TAG {
        Some(InstructionKind::CreateCampaign)
    } else if tag == UPDATE_METRICS_TAG {
        Some(InstructionKind::UpdateMetrics)
    } else if tag == CLOSE_CAMPAIGN_TAG {
        Some(InstructionKind::CloseCampaign)
    } else if tag == CREATE_REWARD_PROGRAM_TAG {
        Some(InstructionKind::CreateRewardProgram)
    } else if tag == CLAIM_REWARD_TAG {
        Some(InstructionKind::ClaimReward)
    } else {
        None
    }
}

/// Dispatch on an instruction payload's leading discriminator byte.
/// Unrecognized values are rejected cleanly.
pub fn instruction_kind(tag: u8) -> (r: Option<InstructionKind>)
    ensures
        r == spec_instruction_kind(tag),
{
    if tag == CREATE_CAMPAIGN_TAG {
        Some(InstructionKind::CreateCampaign)
    } else if tag == UPDATE_METRICS_TAG {
        Some(InstructionKind::UpdateMetrics)
    } else if tag == CLOSE_CAMPAIGN_TAG {
        Some(InstructionKind::CloseCampaign)
    } else if tag == CREATE_REWARD_PROGRAM_TAG {
        Some(InstructionKind::CreateRewardProgram)
    } else if tag == CLAIM_REWARD_TAG {
        Some(InstructionKind::ClaimReward)
    } else {
        None
    }
}

// ---------------------------------------------------------------------------
// Specification-level encoders
// ---------------------------------------------------------------------------

/// A `u32` as four little-endian bytes.
pub open spec fn enc_u32(x: u32) -> Seq<u8> {
    spec_u32_to_le_bytes(x)
}

/// A `u64` as eight little-endian bytes.
pub open spec fn enc_u64(x: u64) -> Seq<u8> {
    spec_u64_to_le_bytes(x)
}

/// An `i64` as its two's-complement bit pattern in eight little-endian
/// bytes.
pub open spec fn enc_i64(x: i64) -> Seq<u8> {
    spec_u64_to_le_bytes(x as u64)
}

/// A boolean as a single byte, `1` for true and `0` for false.
pub open spec fn enc_bool(b: bool) -> Seq<u8> {
    seq![if b { 1u8 } else { 0u8 }]
}

/// Whether a string's UTF-8 byte length fits the `u32` length prefix.
pub open spec fn str_encodable(s: Seq<char>) -> bool {
    encode_utf8(s).len() <= u32::MAX
}

/// A string as a `u32` byte length followed by its UTF-8 bytes.
pub open spec fn enc_str(s: Seq<char>) -> Seq<u8> {
    enc_u32(encode_utf8(s).len() as u32) + encode_utf8(s)
}

// ---------------------------------------------------------------------------
// Specification-level parsers
//
// Each takes the buffer and a position and yields the parsed value with the
// position just past it, or nothing where the bytes do not parse.
// ---------------------------------------------------------------------------

pub open spec fn parse_u32(d: Seq<u8>, pos: int) -> Option<(u32, int)> {
    if 0 <= pos && pos + 4 <= d.len() {
        Some((spec_u32_from_le_bytes(d.subrange(pos, pos + 4)), pos + 4))
    } else {
        None
    }
}

pub open spec fn parse_u64(d: Seq<u8>, pos: int) -> Option<(u64, int)> {
    if 0 <= pos && pos + 8 <= d.len() {
        Some((spec_u64_from_le_bytes(d.subrange(pos, pos + 8)), pos + 8))
    } else {
        None
    }
}

pub open spec fn parse_i64(d: Seq<u8>, pos: int) -> Option<(i64, int)> {
    match parse_u64(d, pos) {
        Some((x, p)) => Some((x as i64, p)),
        None => None,
    }
}

pub open spec fn parse_bool(d: Seq<u8>, pos: int) -> Option<(bool, int)> {
    if 0 <= pos && pos + 1 <= d.len() {
        if d[pos] == 0u8 {
            Some((false, pos + 1))
        } else if d[pos] == 1u8 {
            Some((true, pos + 1))
        } else {
            None
        }
    } else {
        None
    }
}

pub open spec fn parse_str(d: Seq<u8>, pos: int) -> Option<(Seq<char>, int)> {
    match parse_u32(d, pos) {
        Some((n, p)) => {
            if p + n <= d.len() && valid_utf8(d.subrange(p, p + n)) {
                Some((decode_utf8(d.subrange(p, p + n)), p + n))
            } else {
                None
            }
        },
        None => None,
    }
}

// ---------------------------------------------------------------------------
// Executable writers
// ---------------------------------------------------------------------------

pub fn write_u32(out: &mut Vec<u8>, x: u32)
    ensures
        final(out)@ == old(out)@ + enc_u32(x),
{
    let mut b = u32_to_le_bytes(x);
    out.append(&mut b);
}

pub fn write_u64(out: &mut Vec<u8>, x: u64)
    ensures
        final(out)@ == old(out)@ + enc_u64(x),
{
    let mut b = u64_to_le_bytes(x);
    out.append(&mut b);
}

pub fn write_i64(out: &mut Vec<u8>, x: i64)
    ensures
        final(out)@ == old(out)@ + enc_i64(x),
{
    let mut b = u64_to_le_bytes(x as u64);
    out.append(&mut b);
}

pub fn write_bool(out: &mut Vec<u8>, b: bool)
    ensures
        final(out)@ == old(out)@ + enc_bool(b),
{
    out.push(if b { 1u8 } else { 0u8 });
    proof {
        assert(out@ =~= old(out)@ + enc_bool(b));
    }
}

/// Writes the `u32` length prefix and UTF-8 bytes of `s`. Fails, leaving
/// `out` unchanged, exactly when the byte length does not fit the prefix.
pub fn write_str(out: &mut Vec<u8>, s: &str) -> (ok: bool)
    ensures
        ok ==> str_encodable(s@) && final(out)@ == old(out)@ + enc_str(s@),
        !ok ==> !str_encodable(s@) && final(out)@ == old(out)@,
{
    let mut bytes = s.as_bytes_vec();
    if bytes.len() > u32::MAX as usize {
        return false;
    }
    write_u32(out, bytes.len() as u32);
    out.append(&mut bytes);
    proof {
        assert(out@ =~= old(out)@ + enc_str(s@));
    }
    true
}

// ---------------------------------------------------------------------------
// Executable readers
// ---------------------------------------------------------------------------

pub fn read_u32(d: &[u8], pos: usize) -> (r: Option<(u32, usize)>)
    ensures
        r matches Some((x, p)) ==> parse_u32(d@, pos as int) == Some((x, p as int)),
        r is None ==> parse_u32(d@, pos as int) is None,
{
    if pos <= d.len() && d.len() - pos >= 4 {
        let sub = slice_subrange(d, pos, pos + 4);
        Some((u32_from_le_bytes(sub), pos + 4))
    } else {
        None
    }
}

pub fn read_u64(d: &[u8], pos: usize) -> (r: Option<(u64, usize)>)
    ensures
        r matches Some((x, p)) ==> parse_u64(d@, pos as int) == Some((x, p as int)),
        r is None ==> parse_u64(d@, pos as int) is None,
{
    if pos <= d.len() && d.len() - pos >= 8 {
        let sub = slice_subrange(d, pos, pos + 8);
        Some((u64_from_le_bytes(sub), pos + 8))
    } else {
        None
    }
}

pub fn read_i64(d: &[u8], pos: usize) -> (r: Option<(i64, usize)>)
    ensures
        r matches Some((x, p)) ==> parse_i64(d@, pos as int) == Some((x, p as int)),
        r is None ==> parse_i64(d@, pos as int) is None,
{
    match read_u64(d, pos) {
        Some((x, p)) => Some((x as i64, p)),
        None => None,
    }
}

pub fn read_bool(d: &[u8], pos: usize) -> (r: Option<(bool, usize)>)
    ensures
        r matches Some((b, p)) ==> parse_bool(d@, pos as int) == Some((b, p as int)),
        r is None ==> parse_bool(d@, pos as int) is None,
{
    if pos < d.len() {
        let byte = d[pos];
        if byte == 0u8 {
            Some((false, pos + 1))
        } else if byte == 1u8 {
            Some((true, pos + 1))
        } else {
            None
        }
    } else {
        None
    }
}

/// Relies on `core::str::from_utf8`: it succeeds exactly on valid UTF-8
/// input and returns the string read from those bytes.
#[verifier::external_body]
fn utf8_to_string(v: &[u8]) -> (r: Option<String>)
    ensures
        r matches Some(s) ==> valid_utf8(v@) && s@ == decode_utf8(v@),
        r is None ==> !valid_utf8(v@),
{
    match core::str::from_utf8(v) {
        Ok(s) => Some(s.to_string()),
        Err(_) => None,
    }
}

pub fn read_string(d: &[u8], pos: usize) -> (r: Option<(String, usize)>)
    ensures
        r matches Some((s, p)) ==> parse_str(d@, pos as int) == Some((s@, p as int)),
        r is None ==> parse_str(d@, pos as int) is None,
{
    match read_u32(d, pos) {
        Some((n, p)) => {
            if n as usize <= d.len() && p <= d.len() - n as usize {
                let sub = slice_subrange(d, p, p + n as usize);
                match utf8_to_string(sub) {
                    Some(s) => Some((s, p + n as usize)),
                    None => None,
                }
            } else {
                None
            }
        },
        None => None,
    }
}

// ---------------------------------------------------------------------------
// Parsing inverts encoding
// ---------------------------------------------------------------------------

/// A slice of an enclosing buffer slice: where `d` holds `e` at `pos`, it
/// holds every piece of `e` at the corresponding offset.
pub proof fn lemma_subrange_of_subrange(d: Seq<u8>, pos: int, e: Seq<u8>, a: int, b: int)
    requires
        0 <= pos,
        pos + e.len() <= d.len(),
        d.subrange(pos, pos + e.len() as int) == e,
        0 <= a <= b <= e.len(),
    ensures
        d.subrange(pos + a, pos + b) == e.subrange(a, b),
{
    assert(d.subrange(pos + a, pos + b) =~= e.subrange(a, b)) by {
        assert(forall|i: int|
            0 <= i < e.len() ==> e[i] == #[trigger] d.subrange(pos, pos + e.len() as int)[i]);
    }
}

pub proof fn lemma_parse_enc_u32(d: Seq<u8>, pos: int, x: u32)
    requires
        0 <= pos,
        pos + 4 <= d.len(),
        d.subrange(pos, pos + 4) == enc_u32(x),
    ensures
        parse_u32(d, pos) == Some((x, pos + 4)),
{
    lemma_auto_spec_u32_to_from_le_bytes();
    assert(spec_u32_to_le_bytes(x).len() == 4);
    assert(spec_u32_from_le_bytes(spec_u32_to_le_bytes(x)) == x);
}

pub proof fn lemma_parse_enc_u64(d: Seq<u8>, pos: int, x: u64)
    requires
        0 <= pos,
        pos + 8 <= d.len(),
        d.subrange(pos, pos + 8) == enc_u64(x),
    ensures
        parse_u64(d, pos) == Some((x, pos + 8)),
{
    lemma_auto_spec_u64_to_from_le_bytes();
    assert(spec_u64_to_le_bytes(x).len() == 8);
    assert(spec_u64_from_le_bytes(spec_u64_to_le_bytes(x)) == x);
}

pub proof fn lemma_parse_enc_i64(d: Seq<u8>, pos: int, x: i64)
    requires
        0 <= pos,
        pos + 8 <= d.len(),
        d.subrange(pos, pos + 8) == enc_i64(x),
    ensures
        parse_i64(d, pos) == Some((x, pos + 8)),
{
    lemma_auto_spec_u64_to_from_le_bytes();
    assert(spec_u64_to_le_bytes(x as u64).len() == 8);
    assert(spec_u64_from_le_bytes(spec_u64_to_le_bytes(x as u64)) == x as u64);
    assert((x as u64) as i64 == x) by (bit_vector);
}

pub proof fn lemma_parse_enc_bool(d: Seq<u8>, pos: int, b: bool)
    requires
        0 <= pos,
        pos + 1 <= d.len(),
        d.subrange(pos, pos + 1) == enc_bool(b),
    ensures
        parse_bool(d, pos) == Some((b, pos + 1)),
{
    assert(d[pos] == enc_bool(b)[0]);
}

pub proof fn lemma_parse_enc_str(d: Seq<u8>, pos: int, s: Seq<char>)
    requires
        0 <= pos,
        str_encodable(s),
        pos + enc_str(s).len() <= d.len(),
        d.subrange(pos, pos + enc_str(s).len() as int) == enc_str(s),
    ensures
        parse_str(d, pos) == Some((s, pos + enc_str(s).len())),
{
    broadcast use encode_utf8_valid_utf8, encode_utf8_decode_utf8;

    let bytes = encode_utf8(s);
    let n = bytes.len() as u32;
    let e = enc_str(s);
    assert(e == enc_u32(n) + bytes);
    assert(enc_u32(n).len() == 4) by {
        lemma_auto_spec_u32_to_from_le_bytes();
    }
    assert(e.subrange(0, 4) =~= enc_u32(n));
    lemma_subrange_of_subrange(d, pos, e, 0, 4);
    lemma_parse_enc_u32(d, pos, n);
    assert(e.subrange(4, e.len() as int) =~= bytes);
    lemma_subrange_of_subrange(d, pos, e, 4, e.len() as int);
    assert(d.subrange(pos + 4, pos + 4 + n) == bytes);
}

} // verus!
