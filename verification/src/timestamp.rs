use crate::error::BpmError;
use chrono::{SecondsFormat, TimeZone, Utc};
use vstd::prelude::*;

verus! {

/// Number of bytes every timestamp occupies on the wire.
pub const TIMESTAMP_WIDTH: usize = 24;

/// A timestamp as it is embedded in a message: RFC 3339 text in UTC with
/// millisecond precision and a trailing `Z`, held in exactly
/// [`TIMESTAMP_WIDTH`] bytes.
#[derive(Clone, Copy, Debug, PartialEq, Eq)]
pub struct FixedWidthTimestamp {
    pub text: [u8; TIMESTAMP_WIDTH],
}

impl View for FixedWidthTimestamp {
    type V = Seq<u8>;

    open spec fn view(&self) -> Seq<u8> {
        self.text@
    }
}

/// `text` brought to the fixed width: its first [`TIMESTAMP_WIDTH`] bytes,
/// followed by zero bytes where it is shorter.
pub open spec fn fit_width(text: Seq<u8>) -> Seq<u8> {
    Seq::new(
        TIMESTAMP_WIDTH as nat,
        |i: int| if i < text.len() { text[i] } else { 0u8 },
    )
}

/// The RFC 3339 text (UTC, milliseconds, trailing `Z`) that chrono gives for
/// an instant `epoch_ms` milliseconds after the Unix epoch, or `None` where
/// chrono has no such instant.
pub uninterp spec fn utc_rfc3339_millis(epoch_ms: i64) -> Option<Seq<u8>>;

/// What [`FixedWidthTimestamp::from_formatted`] makes of a formatter's answer.
pub open spec fn stamp_of(formatted: Option<Seq<u8>>) -> Result<Seq<u8>, BpmError> {
    match formatted {
        Some(text) => Ok(fit_width(text)),
        None => Err(BpmError::InvalidTimestamp),
    }
}

/// The timestamp for `epoch_ms`, or the error for an instant out of range.
pub open spec fn format_millis_spec(epoch_ms: i64) -> Result<Seq<u8>, BpmError> {
    stamp_of(utc_rfc3339_millis(epoch_ms))
}

/// Whether `stamp` is the timestamp of some instant.
pub open spec fn is_timestamp(stamp: Seq<u8>) -> bool {
    exists|epoch_ms: i64| #[trigger] format_millis_spec(epoch_ms) == Ok::<Seq<u8>, BpmError>(stamp)
}

/// Whether an executable outcome `r` is the outcome `expected` of the model.
pub open spec fn stamp_is(
    r: Result<FixedWidthTimestamp, BpmError>,
    expected: Result<Seq<u8>, BpmError>,
) -> bool {
    match r {
        Ok(stamp) => expected == Ok::<Seq<u8>, BpmError>(stamp@),
        Err(e) => expected == Err::<Seq<u8>, BpmError>(e),
    }
}

/// A timestamp is always [`TIMESTAMP_WIDTH`] bytes long. Text of that
/// width is kept as it is; longer text loses what lies beyond the width;
/// shorter text is followed by zero bytes.
pub proof fn law_fit_width(text: Seq<u8>)
    ensures
        fit_width(text).len() == TIMESTAMP_WIDTH,
        text.len() >= TIMESTAMP_WIDTH ==> fit_width(text) == text.take(TIMESTAMP_WIDTH as int),
        text.len() <= TIMESTAMP_WIDTH ==> fit_width(text) == text + Seq::new(
            (TIMESTAMP_WIDTH - text.len()) as nat,
            |i: int| 0u8,
        ),
        forall|stamp: Seq<u8>| is_timestamp(stamp) ==> stamp.len() == TIMESTAMP_WIDTH,
{
    assert forall|stamp: Seq<u8>| is_timestamp(stamp) implies stamp.len() == TIMESTAMP_WIDTH by {
        let epoch_ms = choose|epoch_ms: i64| #[trigger]
            format_millis_spec(epoch_ms) == Ok::<Seq<u8>, BpmError>(stamp);
        assert(format_millis_spec(epoch_ms) == Ok::<Seq<u8>, BpmError>(stamp));
    }
}

/// Calls chrono's `Utc::now` and reads the instant off as milliseconds
/// since the Unix epoch, with `DateTime::timestamp_millis`.
///
/// The value depends on the system clock. What is claimed of every
/// reading: it is an instant that chrono can format, since chrono documents
/// that `timestamp_millis` and the construction from milliseconds round-trip.
/// chrono panics where the clock stands before the Unix epoch.
#[verifier::external_body]
fn now_in_millis() -> (epoch_ms: i64)
    ensures
        utc_rfc3339_millis(epoch_ms) is Some,
{
    Utc::now().timestamp_millis()
}

/// Makes the instant with chrono's `TimeZone::timestamp_millis_opt` on `Utc`
/// and formats it with `DateTime::to_rfc3339_opts(SecondsFormat::Millis, true)`.
///
/// The contract only gives the answer its name: the text is a function of
/// `epoch_ms` alone, and it is absent exactly where chrono reports the
/// number of milliseconds as out of range.
#[verifier::external_body]
fn millis_in_rfc3339(epoch_ms: i64) -> (text: Option<Vec<u8>>)
    ensures
        match text {
            Some(bytes) => utc_rfc3339_millis(epoch_ms) == Some(bytes@),
            None => utc_rfc3339_millis(epoch_ms) == None::<Seq<u8>>,
        },
{
    match Utc.timestamp_millis_opt(epoch_ms).single() {
        Some(instant) => Some(instant.to_rfc3339_opts(SecondsFormat::Millis, true).into_bytes()),
        None => None,
    }
}

impl FixedWidthTimestamp {
    /// Brings formatted text to the fixed width: longer text is cut after
    /// [`TIMESTAMP_WIDTH`] bytes, shorter text is filled up with zero bytes.
    pub fn from_text(text: &[u8]) -> (stamp: Self)
        ensures
            stamp@ == fit_width(text@),
    {
        let mut buf: [u8; TIMESTAMP_WIDTH] = [0u8; TIMESTAMP_WIDTH];
        let mut i: usize = 0;
        while i < TIMESTAMP_WIDTH && i < text.len()
            invariant
                i <= TIMESTAMP_WIDTH,
                i <= text@.len(),
                forall|j: int| 0 <= j < i ==> buf@[j] == text@[j],
                forall|j: int| i <= j < TIMESTAMP_WIDTH ==> buf@[j] == 0u8,
            decreases TIMESTAMP_WIDTH - i,
        {
            buf[i] = text[i];
            i = i + 1;
        }
        FixedWidthTimestamp { text: buf }
    }

    /// Turns a formatter's answer into a timestamp: text is brought to the
    /// fixed width, and a missing answer is an instant that does not exist.
    pub fn from_formatted(formatted: Option<Vec<u8>>) -> (r: Result<Self, BpmError>)
        ensures
            stamp_is(
                r,
                stamp_of(
                    match formatted {
                        Some(bytes) => Some(bytes@),
                        None => None,
                    },
                ),
            ),
    {
        match formatted {
            Some(bytes) => Ok(FixedWidthTimestamp::from_text(bytes.as_slice())),
            None => Err(BpmError::InvalidTimestamp),
        }
    }
}

/// The current wall-clock time in UTC as a fixed-width timestamp.
pub fn format_now() -> (stamp: FixedWidthTimestamp)
    ensures
        stamp@.len() == TIMESTAMP_WIDTH,
        is_timestamp(stamp@),
{
    let epoch_ms = now_in_millis();
    let text = millis_in_rfc3339(epoch_ms).unwrap();
    let stamp = FixedWidthTimestamp::from_text(text.as_slice());
    assert(format_millis_spec(epoch_ms) == Ok::<Seq<u8>, BpmError>(stamp@));
    stamp
}

/// The instant `epoch_ms` milliseconds after the Unix epoch as a fixed-width
/// timestamp; `InvalidTimestamp` where no calendar instant corresponds.
pub fn format_millis(epoch_ms: i64) -> (r: Result<FixedWidthTimestamp, BpmError>)
    ensures
        stamp_is(r, format_millis_spec(epoch_ms)),
{
    FixedWidthTimestamp::from_formatted(millis_in_rfc3339(epoch_ms))
}

} // verus!
