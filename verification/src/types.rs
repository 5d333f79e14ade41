//! Core identifiers shared across the crate.
//!
//! Player and region identifiers are UUIDs; they are held here as the
//! 128-bit value of the UUID, which is all the logic compares.

use vstd::arithmetic::power::pow;
use vstd::prelude::*;

verus! {

#[verifier::external_type_specification]
#[verifier::external_body]
pub struct ExUuidError(uuid::Error);

/// What `uuid::Uuid::parse_str` gives for a text, as the 128-bit value of
/// the UUID, or `None` when the text is not a UUID.
pub uninterp spec fn uuid_parse(text: Seq<char>) -> Option<u128>;

/// The lower-case hex digit of a value below 16.
pub open spec fn lower_hex_digit(n: int) -> char {
    if n < 10 {
        (48 + n) as char
    } else {
        (87 + n) as char
    }
}

/// The 32 lower-case hex digits of a 128-bit value, most significant first.
pub open spec fn hex_digits_u128(value: u128) -> Seq<char> {
    Seq::new(32, |i: int| lower_hex_digit((value as int / pow(16, (31 - i) as nat)) % 16))
}

/// The hyphenated lower-case text of the UUID with a given 128-bit value
/// (its bytes taken most significant first): 32 hex digits in groups of 8,
/// 4, 4, 4 and 12, joined by hyphens.
pub open spec fn uuid_text(value: u128) -> Seq<char> {
    let d = hex_digits_u128(value);
    d.subrange(0, 8) + seq!['-'] + d.subrange(8, 12) + seq!['-'] + d.subrange(12, 16) + seq!['-']
        + d.subrange(16, 20) + seq!['-'] + d.subrange(20, 32)
}

/// A 128-bit value is that of a version 4 (random) UUID of the RFC 4122
/// variant: its version nibble (bits 76 to 79) is 4 and its variant bits
/// (bits 62 and 63) are `10`.
pub open spec fn is_v4_uuid(v: u128) -> bool {
    (v >> 76u128) & 0xfu128 == 4u128 && (v >> 62u128) & 3u128 == 2u128
}

/// A fresh random UUID (`uuid::Uuid::new_v4`) as its 128-bit value. The
/// value is random; all that is claimed is what `new_v4` fixes in every
/// outcome: it masks random bits and sets the version to 4 and the variant
/// to RFC 4122.
#[verifier::external_body]
pub(crate) fn random_uuid_value() -> (r: u128)
    ensures
        is_v4_uuid(r),
{
    uuid::Uuid::new_v4().as_u128()
}

/// `uuid::Uuid::parse_str`, the parsed UUID taken as its 128-bit value. The
/// result is the one that `uuid_parse` names for the text; the error value
/// is opaque.
#[verifier::external_body]
pub(crate) fn parse_uuid_value(s: &str) -> (r: Result<u128, uuid::Error>)
    ensures
        match r {
            Ok(v) => uuid_parse(s@) == Some(v),
            Err(_) => uuid_parse(s@) is None,
        },
{
    match uuid::Uuid::parse_str(s) {
        Ok(u) => Ok(u.as_u128()),
        Err(e) => Err(e),
    }
}

/// `uuid::Uuid::from_u128(value).to_string()`: the hyphenated lower-case hex
/// text of the UUID, as `uuid_text` spells it out.
#[verifier::external_body]
pub(crate) fn uuid_value_text(value: u128) -> (r: String)
    ensures
        r@ == uuid_text(value),
{
    uuid::Uuid::from_u128(value).to_string()
}

/// Unique identifier for a player in the game world.
#[derive(Debug, Clone, Copy, PartialEq, Eq, Hash, Structural)]
pub struct PlayerId(pub u128);

impl PlayerId {
    /// Creates a new random player ID (UUID v4).
    pub fn new() -> (r: Self)
        ensures
            is_v4_uuid(r.0),
    {
        PlayerId(random_uuid_value())
    }

    /// Parses a player ID from the text of a UUID.
    pub fn from_str(s: &str) -> (r: Result<Self, uuid::Error>)
        ensures
            match r {
                Ok(id) => uuid_parse(s@) == Some(id.0),
                Err(_) => uuid_parse(s@) is None,
            },
    {
        match parse_uuid_value(s) {
            Ok(v) => Ok(PlayerId(v)),
            Err(e) => Err(e),
        }
    }

    /// The hyphenated UUID text of this ID.
    pub fn to_string(&self) -> (r: String)
        ensures
            r@ == uuid_text(self.0),
    {
        uuid_value_text(self.0)
    }
}

/// Unique identifier for a game region.
#[derive(Debug, Clone, Copy, PartialEq, Eq, Hash, Structural)]
pub struct RegionId(pub u128);

impl RegionId {
    /// Creates a new random region ID (UUID v4).
    pub fn new() -> (r: Self)
        ensures
            is_v4_uuid(r.0),
    {
        RegionId(random_uuid_value())
    }
}

/// Enumeration of possible disconnection reasons.
#[derive(Debug, Clone)]
pub enum DisconnectReason {
    /// Player initiated disconnection (normal logout)
    ClientDisconnect,
    /// Connection timed out due to inactivity or network issues
    Timeout,
    /// Server is shutting down gracefully
    ServerShutdown,
    /// An error occurred that forced disconnection
    Error(String),
}

} // verus!
