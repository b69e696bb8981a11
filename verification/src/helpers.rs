//! Helpers shared between the API implementations: query-prefix stripping
//! and hash parsing.

use vstd::prelude::*;

use vstd::string::StringSliceAdditionalSpecFns;
use vstd::string::StrSliceExecFns;

verus! {

/// A 32-byte base-chain hash.
#[derive(Debug)]
pub struct Hash256 {
    pub bytes: Vec<u8>,
}

impl Hash256 {
    pub open spec fn wf(self) -> bool {
        self.bytes@.len() == 32
    }
}

/// A 32-byte rollup transaction hash.
#[derive(Debug)]
pub struct TxHash {
    pub bytes: Vec<u8>,
}

impl TxHash {
    pub open spec fn wf(self) -> bool {
        self.bytes@.len() == 32
    }
}

/// Why a hex query failed to parse.
#[derive(Clone, Copy, Debug, PartialEq, Eq, Structural)]
pub enum ParseHexError {
    /// A hex string needs an even number of digits.
    OddLength,
    /// A character outside `0-9`, `a-f`, `A-F`.
    InvalidCharacter,
    /// The digits decode to the wrong number of bytes.
    InvalidLength,
}

pub open spec fn has_prefix_0x(s: Seq<char>) -> bool {
    s.len() >= 2 && s[0] == '0' && s[1] == 'x'
}

pub open spec fn has_prefix_sync_bl(s: Seq<char>) -> bool {
    s.len() >= 8 && s[0] == 's' && s[1] == 'y' && s[2] == 'n' && s[3] == 'c' && s[4] == '-' && s[5]
        == 'b' && s[6] == 'l' && s[7] == ':'
}

pub open spec fn has_prefix_sync_tx(s: Seq<char>) -> bool {
    s.len() >= 8 && s[0] == 's' && s[1] == 'y' && s[2] == 'n' && s[3] == 'c' && s[4] == '-' && s[5]
        == 't' && s[6] == 'x' && s[7] == ':'
}

/// The query with its `0x`, `sync-bl:` or `sync-tx:` prefix removed.
pub open spec fn spec_remove_prefix(s: Seq<char>) -> Seq<char> {
    if has_prefix_0x(s) {
        s.subrange(2, s.len() as int)
    } else if has_prefix_sync_bl(s) {
        s.subrange(8, s.len() as int)
    } else if has_prefix_sync_tx(s) {
        s.subrange(8, s.len() as int)
    } else {
        s
    }
}

/// Strip the query's `0x`, `sync-bl:` or `sync-tx:` prefix, if one is
/// there.
pub fn remove_prefix(query: &str) -> (r: &str)
    ensures
        r@ == spec_remove_prefix(query@),
{
    let n = query.unicode_len();
    if n >= 2 && query.get_char(0) == '0' && query.get_char(1) == 'x' {
        return query.substring_char(2, n);
    }
    if n >= 8 && query.get_char(0) == 's' && query.get_char(1) == 'y' && query.get_char(2) == 'n'
        && query.get_char(3) == 'c' && query.get_char(4) == '-' && query.get_char(7) == ':' {
        if query.get_char(5) == 'b' && query.get_char(6) == 'l' {
            return query.substring_char(8, n);
        }
        if query.get_char(5) == 't' && query.get_char(6) == 'x' {
            return query.substring_char(8, n);
        }
    }
    query
}

/// Is the byte an ASCII hex digit?
pub open spec fn is_hex_digit_byte(b: u8) -> bool {
    (48 <= b <= 57) || (65 <= b <= 70) || (97 <= b <= 102)
}

/// The value of an ASCII hex digit.
pub open spec fn hex_digit_value(b: u8) -> u8 {
    if 48 <= b <= 57 {
        (b - 48) as u8
    } else if 65 <= b <= 70 {
        (b - 55) as u8
    } else {
        (b - 87) as u8
    }
}

/// The bytes a hex digit string decodes to, two digits per byte.
pub open spec fn hex_decoded(s: Seq<u8>) -> Seq<u8> {
    Seq::new(
        (s.len() / 2) as nat,
        |i: int| (hex_digit_value(s[2 * i]) * 16 + hex_digit_value(s[2 * i + 1])) as u8,
    )
}

/// Do all bytes hold hex digits?
pub open spec fn all_hex_digits(s: Seq<u8>) -> bool {
    forall|i: int| 0 <= i < s.len() ==> is_hex_digit_byte(#[trigger] s[i])
}

/// Relies on hex::decode: an even-length, all-hex-digit string decodes to
/// one byte per digit pair; an odd length is rejected first, then any
/// non-digit character.
#[verifier::external_body]
fn hex_decode(s: &str) -> (r: Result<Vec<u8>, ParseHexError>)
    ensures
        (r is Ok) <==> (s.spec_bytes().len() % 2 == 0 && all_hex_digits(s.spec_bytes())),
        r matches Ok(bytes) ==> bytes@ == hex_decoded(s.spec_bytes()),
        r matches Err(e) ==> e == (if s.spec_bytes().len() % 2 != 0 {
            ParseHexError::OddLength
        } else {
            ParseHexError::InvalidCharacter
        }),
{
    match hex::decode(s) {
        Ok(bytes) => Ok(bytes),
        Err(hex::FromHexError::OddLength) => Err(ParseHexError::OddLength),
        Err(hex::FromHexError::InvalidHexCharacter { .. }) => Err(ParseHexError::InvalidCharacter),
        Err(hex::FromHexError::InvalidStringLength) => Err(ParseHexError::InvalidLength),
    }
}

/// Parse a 32-byte base-chain hash from a possibly prefixed hex query.
pub fn try_parse_hash(query: &str) -> (r: Result<Hash256, ParseHexError>)
    ensures
        ({
            let stripped = vstd::utf8::encode_utf8(spec_remove_prefix(query@));
            &&& (r is Ok) <==> (stripped.len() == 64 && all_hex_digits(stripped))
            &&& (r matches Ok(h) ==> h.wf() && h.bytes@ == hex_decoded(stripped))
        }),
{
    let tx_hex = remove_prefix(query);
    let bytes = match hex_decode(tx_hex) {
        Result::Ok(bytes) => bytes,
        Result::Err(e) => {
            return Err(e);
        },
    };
    if bytes.len() != 32 {
        return Err(ParseHexError::InvalidLength);
    }
    Ok(Hash256 { bytes })
}

/// Parse a 32-byte rollup transaction hash from a possibly prefixed hex
/// query.
pub fn try_parse_tx_hash(query: &str) -> (r: Result<TxHash, ParseHexError>)
    ensures
        ({
            let stripped = vstd::utf8::encode_utf8(spec_remove_prefix(query@));
            &&& (r is Ok) <==> (stripped.len() == 64 && all_hex_digits(stripped))
            &&& (r matches Ok(h) ==> h.wf() && h.bytes@ == hex_decoded(stripped))
        }),
{
    let tx_hex = remove_prefix(query);
    let bytes = match hex_decode(tx_hex) {
        Result::Ok(bytes) => bytes,
        Result::Err(e) => {
            return Err(e);
        },
    };
    if bytes.len() != 32 {
        return Err(ParseHexError::InvalidLength);
    }
    Ok(TxHash { bytes })
}

/// The largest base-chain block among pending deposits, 0 when none are
/// pending.
pub open spec fn spec_max_deposit_block(blocks: Seq<u64>) -> int
    decreases blocks.len(),
{
    if blocks.len() == 0 {
        0
    } else {
        let rest = spec_max_deposit_block(blocks.drop_last());
        if blocks.last() > rest {
            blocks.last() as int
        } else {
            rest
        }
    }
}

/// The base-chain block after which all pending deposits count as
/// approved: the most recent deposit's block plus the required
/// confirmations, and nothing when no deposit is pending.
pub fn estimate_deposits_approval_block(
    deposit_blocks: &Vec<u64>,
    confirmations_for_eth_event: u64,
) -> (r: Option<u64>)
    requires
        spec_max_deposit_block(deposit_blocks@) + confirmations_for_eth_event <= u64::MAX,
    ensures
        (r is Some) <==> deposit_blocks@.len() > 0,
        r matches Some(v) ==> v == spec_max_deposit_block(deposit_blocks@)
            + confirmations_for_eth_event,
{
    if deposit_blocks.len() == 0 {
        return None;
    }
    let mut max_block_number: u64 = 0;
    let mut i: usize = 0;
    while i < deposit_blocks.len()
        invariant
            0 <= i <= deposit_blocks@.len(),
            max_block_number as int == spec_max_deposit_block(deposit_blocks@.take(i as int)),
        decreases deposit_blocks@.len() - i,
    {
        proof {
            assert(deposit_blocks@.take(i as int + 1).drop_last() =~= deposit_blocks@.take(
                i as int,
            ));
            assert(deposit_blocks@.take(i as int + 1).last() == deposit_blocks@[i as int]);
        }
        if deposit_blocks[i] > max_block_number {
            max_block_number = deposit_blocks[i];
        }
        i = i + 1;
    }
    proof {
        assert(deposit_blocks@.take(deposit_blocks@.len() as int) =~= deposit_blocks@);
        lemma_spec_max_deposit_block_nonneg(deposit_blocks@);
    }
    Some(max_block_number + confirmations_for_eth_event)
}

proof fn lemma_spec_max_deposit_block_nonneg(blocks: Seq<u64>)
    ensures
        spec_max_deposit_block(blocks) >= 0,
    decreases blocks.len(),
{
    if blocks.len() > 0 {
        lemma_spec_max_deposit_block_nonneg(blocks.drop_last());
    }
}

} // verus!
