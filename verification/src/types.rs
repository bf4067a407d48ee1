//! Identifiers and timestamps.
//!
//! Every identifier is a 128-bit value in the sense of RFC 9562. Fresh
//! identifiers are drawn at random by the `uuid` crate; the library itself
//! only ever copies and compares them.

use vstd::prelude::*;
use vstd::arithmetic::power::pow;

verus! {

/// The lower-case hexadecimal digit that stands for `n`, for `0 <= n < 16`.
pub open spec fn hex_digit(n: int) -> char {
    if n == 0 { '0' } else if n == 1 { '1' } else if n == 2 { '2' } else if n == 3 { '3' }
    else if n == 4 { '4' } else if n == 5 { '5' } else if n == 6 { '6' } else if n == 7 { '7' }
    else if n == 8 { '8' } else if n == 9 { '9' } else if n == 10 { 'a' } else if n == 11 { 'b' }
    else if n == 12 { 'c' } else if n == 13 { 'd' } else if n == 14 { 'e' } else { 'f' }
}

/// The hyphenated text of a 128-bit identifier: 32 lower-case hexadecimal
/// digits, most significant first, in groups of 8, 4, 4, 4 and 12.
pub open spec fn uuid_text(value: u128) -> Seq<char> {
    Seq::new(
        36,
        |i: int|
            if i == 8 || i == 13 || i == 18 || i == 23 {
                '-'
            } else {
                let hyphens: int = if i > 23 { 4 } else if i > 18 { 3 } else if i > 13 { 2 } else if i > 8 { 1 } else { 0 };
                hex_digit(((value as int) / pow(16, (31 - (i - hyphens)) as nat)) % 16)
            },
    )
}

/// Whether the 128 bits are those of a random identifier in the sense of
/// RFC 9562: the version, bits 76 to 79, is 4, and the variant, bits 62 and
/// 63, is binary 10. The other 122 bits are free.
pub open spec fn is_version_4(value: u128) -> bool {
    (value >> 76) & 0xf == 4 && (value >> 62) & 0x3 == 2
}

/// Draws a version 4 identifier with `uuid::Uuid::new_v4` and hands out its
/// 128 bits. The function fills the bits at random and then sets the version
/// and the variant, so that much holds of every outcome; nothing is claimed
/// of the random bits.
#[verifier::external_body]
fn random_uuid_bits() -> (bits: u128)
    ensures
        is_version_4(bits),
{
    uuid::Uuid::new_v4().as_u128()
}

/// Formats `value` as `uuid::Uuid` displays it: `Uuid::from_u128` keeps the
/// 128 bits as given, and the `Display` impl writes the hyphenated lower-case
/// form.
#[verifier::external_body]
fn format_uuid_bits(value: u128) -> (text: String)
    ensures
        text@ == uuid_text(value),
{
    uuid::Uuid::from_u128(value).to_string()
}

/// Unique identifier for an agent.
#[derive(Clone, Copy, Debug, PartialEq, Eq, Hash, Structural)]
pub struct AgentId {
    pub value: u128,
}

impl AgentId {
    /// A fresh random identifier of version 4.
    pub fn new() -> (id: Self)
        ensures
            is_version_4(id.value),
    {
        AgentId { value: random_uuid_bits() }
    }

    /// The identifier with the given 128 bits.
    pub fn from_u128(value: u128) -> (id: Self)
        ensures
            id.value == value,
    {
        AgentId { value }
    }

    /// The 128 bits of the identifier.
    pub fn as_u128(&self) -> (value: u128)
        ensures
            value == self.value,
    {
        self.value
    }

    /// The hyphenated text of the identifier.
    pub fn to_string(&self) -> (text: String)
        ensures
            text@ == uuid_text(self.value),
    {
        format_uuid_bits(self.value)
    }
}

/// Unique identifier for a guideline.
#[derive(Clone, Copy, Debug, PartialEq, Eq, Hash, Structural)]
pub struct GuidelineId {
    pub value: u128,
}

impl GuidelineId {
    /// A fresh random identifier of version 4.
    pub fn new() -> (id: Self)
        ensures
            is_version_4(id.value),
    {
        GuidelineId { value: random_uuid_bits() }
    }

    /// The identifier with the given 128 bits.
    pub fn from_u128(value: u128) -> (id: Self)
        ensures
            id.value == value,
    {
        GuidelineId { value }
    }

    /// The 128 bits of the identifier.
    pub fn as_u128(&self) -> (value: u128)
        ensures
            value == self.value,
    {
        self.value
    }

    /// The hyphenated text of the identifier.
    pub fn to_string(&self) -> (text: String)
        ensures
            text@ == uuid_text(self.value),
    {
        format_uuid_bits(self.value)
    }
}

/// Unique identifier for a tool.
#[derive(Clone, Copy, Debug, PartialEq, Eq, Hash, Structural)]
pub struct ToolId {
    pub value: u128,
}

impl ToolId {
    /// A fresh random identifier of version 4.
    pub fn new() -> (id: Self)
        ensures
            is_version_4(id.value),
    {
        ToolId { value: random_uuid_bits() }
    }

    /// The identifier with the given 128 bits.
    pub fn from_u128(value: u128) -> (id: Self)
        ensures
            id.value == value,
    {
        ToolId { value }
    }

    /// The 128 bits of the identifier.
    pub fn as_u128(&self) -> (value: u128)
        ensures
            value == self.value,
    {
        self.value
    }

    /// The hyphenated text of the identifier.
    pub fn to_string(&self) -> (text: String)
        ensures
            text@ == uuid_text(self.value),
    {
        format_uuid_bits(self.value)
    }
}

/// Unique identifier for a journey.
#[derive(Clone, Copy, Debug, PartialEq, Eq, Hash, Structural)]
pub struct JourneyId {
    pub value: u128,
}

impl JourneyId {
    /// A fresh random identifier of version 4.
    pub fn new() -> (id: Self)
        ensures
            is_version_4(id.value),
    {
        JourneyId { value: random_uuid_bits() }
    }

    /// The identifier with the given 128 bits.
    pub fn from_u128(value: u128) -> (id: Self)
        ensures
            id.value == value,
    {
        JourneyId { value }
    }

    /// The 128 bits of the identifier.
    pub fn as_u128(&self) -> (value: u128)
        ensures
            value == self.value,
    {
        self.value
    }

    /// The hyphenated text of the identifier.
    pub fn to_string(&self) -> (text: String)
        ensures
            text@ == uuid_text(self.value),
    {
        format_uuid_bits(self.value)
    }
}

/// Unique identifier for a journey step.
#[derive(Clone, Copy, Debug, PartialEq, Eq, Hash, Structural)]
pub struct StepId {
    pub value: u128,
}

impl StepId {
    /// A fresh random identifier of version 4.
    pub fn new() -> (id: Self)
        ensures
            is_version_4(id.value),
    {
        StepId { value: random_uuid_bits() }
    }

    /// The identifier with the given 128 bits.
    pub fn from_u128(value: u128) -> (id: Self)
        ensures
            id.value == value,
    {
        StepId { value }
    }

    /// The 128 bits of the identifier.
    pub fn as_u128(&self) -> (value: u128)
        ensures
            value == self.value,
    {
        self.value
    }

    /// The hyphenated text of the identifier.
    pub fn to_string(&self) -> (text: String)
        ensures
            text@ == uuid_text(self.value),
    {
        format_uuid_bits(self.value)
    }
}

/// Unique identifier for a session.
#[derive(Clone, Copy, Debug, PartialEq, Eq, Hash, Structural)]
pub struct SessionId {
    pub value: u128,
}

impl SessionId {
    /// A fresh random identifier of version 4.
    pub fn new() -> (id: Self)
        ensures
            is_version_4(id.value),
    {
        SessionId { value: random_uuid_bits() }
    }

    /// The identifier with the given 128 bits.
    pub fn from_u128(value: u128) -> (id: Self)
        ensures
            id.value == value,
    {
        SessionId { value }
    }

    /// The 128 bits of the identifier.
    pub fn as_u128(&self) -> (value: u128)
        ensures
            value == self.value,
    {
        self.value
    }

    /// The hyphenated text of the identifier.
    pub fn to_string(&self) -> (text: String)
        ensures
            text@ == uuid_text(self.value),
    {
        format_uuid_bits(self.value)
    }
}

/// Unique identifier for a message.
#[derive(Clone, Copy, Debug, PartialEq, Eq, Hash, Structural)]
pub struct MessageId {
    pub value: u128,
}

impl MessageId {
    /// A fresh random identifier of version 4.
    pub fn new() -> (id: Self)
        ensures
            is_version_4(id.value),
    {
        MessageId { value: random_uuid_bits() }
    }

    /// The identifier with the given 128 bits.
    pub fn from_u128(value: u128) -> (id: Self)
        ensures
            id.value == value,
    {
        MessageId { value }
    }

    /// The 128 bits of the identifier.
    pub fn as_u128(&self) -> (value: u128)
        ensures
            value == self.value,
    {
        self.value
    }

    /// The hyphenated text of the identifier.
    pub fn to_string(&self) -> (text: String)
        ensures
            text@ == uuid_text(self.value),
    {
        format_uuid_bits(self.value)
    }
}

/// A point in time: whole seconds since the Unix epoch and the nanoseconds
/// within that second. Two timestamps are ordered by `secs`, then by `nanos`.
#[derive(Clone, Copy, Debug, PartialEq, Eq, Hash, Structural)]
pub struct Timestamp {
    pub secs: i64,
    pub nanos: u32,
}

/// Reads the clock with `chrono::Utc::now` and splits the instant into
/// `DateTime::timestamp` and `DateTime::timestamp_subsec_nanos`. The value
/// depends on the moment of the call, so nothing is claimed of it.
#[verifier::external_body]
fn clock_now() -> Timestamp {
    let now = chrono::Utc::now();
    Timestamp { secs: now.timestamp(), nanos: now.timestamp_subsec_nanos() }
}

/// What `chrono` objects to in a text that should be a date and time in
/// the format of RFC 3339: `None` where the text is one, else the text of
/// the error.
pub uninterp spec fn rfc3339_error(text: Seq<char>) -> Option<Seq<char>>;

/// Whether a text is a date and time in the format of RFC 3339, as
/// `chrono` reads it.
pub open spec fn rfc3339_valid(text: Seq<char>) -> bool {
    rfc3339_error(text) is None
}

/// Parses `text` with `chrono::DateTime::parse_from_rfc3339` and hands out
/// the text that the error displays where parsing fails. The outcome
/// depends on the text alone.
#[verifier::external_body]
pub(crate) fn check_rfc3339(text: &str) -> (error: Option<String>)
    ensures
        error is None <==> rfc3339_error(text@) is None,
        error matches Some(reason) ==> rfc3339_error(text@) == Some(reason@),
{
    match chrono::DateTime::parse_from_rfc3339(text) {
        Ok(_) => None,
        Err(error) => Some(error.to_string()),
    }
}

impl Timestamp {
    /// The current instant.
    pub fn now() -> Self {
        clock_now()
    }

    /// The instant `secs` seconds and `nanos` nanoseconds after the epoch.
    pub fn new(secs: i64, nanos: u32) -> (t: Self)
        ensures
            t.secs == secs,
            t.nanos == nanos,
    {
        Timestamp { secs, nanos }
    }

    /// Strictly later than `other`.
    pub open spec fn later_than(self, other: Timestamp) -> bool {
        self.secs > other.secs || (self.secs == other.secs && self.nanos > other.nanos)
    }

    /// Whether this instant is strictly later than `other`.
    pub fn is_after(&self, other: &Timestamp) -> (r: bool)
        ensures
            r == self.later_than(*other),
    {
        self.secs > other.secs || (self.secs == other.secs && self.nanos > other.nanos)
    }
}

/// A span of time: whole seconds and the nanoseconds beyond them.
#[derive(Clone, Copy, Debug, PartialEq, Eq, Hash, Structural)]
pub struct Duration {
    pub secs: u64,
    pub nanos: u32,
}

impl Duration {
    /// The span in milliseconds, rounded down.
    pub open spec fn millis(self) -> int {
        self.secs * 1000 + self.nanos / 1_000_000
    }

    /// A span of `secs` seconds.
    pub fn from_secs(secs: u64) -> (span: Self)
        ensures
            span == (Duration { secs, nanos: 0 }),
    {
        Duration { secs, nanos: 0 }
    }

    /// A span of `millis` milliseconds.
    pub fn from_millis(millis: u64) -> (span: Self)
        ensures
            span.secs == millis / 1000,
            span.nanos == (millis % 1000) * 1_000_000,
            span.millis() == millis,
    {
        Duration { secs: millis / 1000, nanos: ((millis % 1000) as u32) * 1_000_000 }
    }

    /// The whole seconds of the span.
    pub fn as_secs(&self) -> (secs: u64)
        ensures
            secs == self.secs,
    {
        self.secs
    }

    /// The span in milliseconds, rounded down.
    pub fn as_millis(&self) -> (millis: u128)
        ensures
            millis == self.millis(),
    {
        (self.secs as u128) * 1000 + (self.nanos / 1_000_000) as u128
    }
}

} // verus!
