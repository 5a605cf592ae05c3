use crate::counters::{SessionCounters, TrackCounters};
use crate::error::BpmError;
use crate::state::{State, StateView};
use crate::timestamp::{
    format_millis, format_millis_spec, format_now, is_timestamp, stamp_is, FixedWidthTimestamp,
};
use crate::wire::{
    combined_payload, encode_payload, encode_rendition_message, encode_session_message,
    encode_timestamp_message, rendition_message, session_message, timestamp_message, ERM_MESSAGE_LEN,
    PAYLOAD_LEN, SM_MESSAGE_LEN, TS_MESSAGE_LEN,
};
use vstd::prelude::*;

verus! {

/// The timestamp of an event: the instant that was supplied for it, where
/// one was; `now` where the value is zero or negative, which stands for
/// "not set".
pub open spec fn stamp_or_now_spec(epoch_ms: i64, now: Seq<u8>) -> Result<Seq<u8>, BpmError> {
    if epoch_ms > 0 {
        format_millis_spec(epoch_ms)
    } else {
        Ok(now)
    }
}

/// The timestamp message for four event instants, of which those that are
/// not set share `now`. One instant out of range fails the whole message.
pub open spec fn timestamp_report_spec(
    now: Seq<u8>,
    ts_cts: i64,
    ts_fer: i64,
    ts_ferc: i64,
    ts_pir: i64,
) -> Result<Seq<u8>, BpmError> {
    match (
        stamp_or_now_spec(ts_cts, now),
        stamp_or_now_spec(ts_fer, now),
        stamp_or_now_spec(ts_ferc, now),
        stamp_or_now_spec(ts_pir, now),
    ) {
        (Ok(cts), Ok(fer), Ok(ferc), Ok(pir)) => Ok(timestamp_message(cts, fer, ferc, pir)),
        _ => Err(BpmError::InvalidTimestamp),
    }
}

/// Whether an executable outcome `r` is the outcome `expected` of the model.
pub open spec fn message_is<const N: usize>(
    r: Result<[u8; N], BpmError>,
    expected: Result<Seq<u8>, BpmError>,
) -> bool {
    match r {
        Ok(bytes) => expected == Ok::<Seq<u8>, BpmError>(bytes@),
        Err(e) => expected == Err::<Seq<u8>, BpmError>(e),
    }
}

impl StateView {
    /// Reporting the session at the time `now`: the state afterwards, in
    /// which the session deltas are consumed, and the session metrics
    /// message that carries them.
    pub open spec fn report_session(self, now: Seq<u8>) -> (StateView, Seq<u8>) {
        (self.read_session().0, session_message(now, self.read_session().1))
    }

    /// Reporting track `i` at the time `now`: the state afterwards, in which
    /// the track's deltas are consumed, and the rendition metrics message
    /// that carries them. An index that no registered track has is refused
    /// with `OutOfRange` and changes nothing.
    pub open spec fn report_track(self, now: Seq<u8>, i: int) -> (StateView, Result<Seq<u8>, BpmError>) {
        match self.read_track(i).1 {
            Ok(deltas) => (self.read_track(i).0, Ok(rendition_message(now, deltas))),
            Err(e) => (self, Err(e)),
        }
    }

    /// Rendering the combined payload for track `i` at the time `now`: the
    /// state afterwards, in which the deltas of the session and of the track
    /// are consumed, and the payload that carries them. An index that no
    /// registered track has is refused with `OutOfRange` and changes
    /// nothing.
    pub open spec fn render(self, now: Seq<u8>, i: int) -> (StateView, Result<Seq<u8>, BpmError>) {
        match self.read_track(i).1 {
            Ok(deltas) => (
                self.read_track(i).0.read_session().0,
                Ok(combined_payload(now, self.read_session().1, deltas)),
            ),
            Err(e) => (self, Err(e)),
        }
    }
}

/// Rendering twice in a row: of two payloads for the same track with no
/// event in between, the second carries zero in every counter of the
/// session and of the track.
pub proof fn law_second_payload_is_zero(s: StateView, i: int, first: Seq<u8>, second: Seq<u8>)
    requires
        s.wf(),
        0 <= i < s.fingerprints.len(),
    ensures
        s.render(first, i).1 is Ok,
        s.render(first, i).0.wf(),
        s.render(first, i).0.render(second, i).1 == Ok::<Seq<u8>, BpmError>(
            combined_payload(second, SessionCounters::zero(), TrackCounters::zero()),
        ),
{
}

/// A payload leaves the running totals and the registry alone, and it does
/// not touch what other tracks have yet to report.
pub proof fn law_payload_consumes_only_its_deltas(s: StateView, i: int, j: int, now: Seq<u8>)
    requires
        s.wf(),
        0 <= i < s.fingerprints.len(),
        0 <= j < s.fingerprints.len(),
        j != i,
    ensures
        s.render(now, i).0.fingerprints == s.fingerprints,
        s.render(now, i).0.counters.session == s.counters.session,
        s.render(now, i).0.counters.tracks == s.counters.tracks,
        s.render(now, i).0.counters.track_deltas(j) == s.counters.track_deltas(j),
{
}

/// The timestamp of one event: `epoch_ms` formatted where it is positive,
/// else `now`.
pub fn stamp_or_now(epoch_ms: i64, now: &FixedWidthTimestamp) -> (r: Result<
    FixedWidthTimestamp,
    BpmError,
>)
    ensures
        stamp_is(r, stamp_or_now_spec(epoch_ms, now@)),
{
    if epoch_ms > 0 {
        format_millis(epoch_ms)
    } else {
        Ok(*now)
    }
}

/// The timestamp message for the four events composition time, frame
/// encode request, frame encode request complete and packet interleave
/// request, at the time `now`.
///
/// An event with a positive value carries that instant; the others carry
/// `now`. A value that names no calendar instant fails the call with
/// `InvalidTimestamp`.
pub fn timestamp_report(
    now: &FixedWidthTimestamp,
    ts_cts: i64,
    ts_fer: i64,
    ts_ferc: i64,
    ts_pir: i64,
) -> (r: Result<[u8; TS_MESSAGE_LEN], BpmError>)
    ensures
        message_is(r, timestamp_report_spec(now@, ts_cts, ts_fer, ts_ferc, ts_pir)),
{
    let cts = stamp_or_now(ts_cts, now);
    let fer = stamp_or_now(ts_fer, now);
    let ferc = stamp_or_now(ts_ferc, now);
    let pir = stamp_or_now(ts_pir, now);
    match (cts, fer, ferc, pir) {
        (Ok(cts), Ok(fer), Ok(ferc), Ok(pir)) => Ok(encode_timestamp_message(&cts, &fer, &ferc, &pir)),
        _ => Err(BpmError::InvalidTimestamp),
    }
}

/// The timestamp message for four events, stamped with the current time
/// where an event's value is not positive. All events that are not set
/// share one reading of the clock.
///
/// A value that names no calendar instant fails the call with
/// `InvalidTimestamp`.
pub fn bpm_ts(ts_cts: i64, ts_fer: i64, ts_ferc: i64, ts_pir: i64) -> (r: Result<
    [u8; TS_MESSAGE_LEN],
    BpmError,
>)
    ensures
        exists|now: Seq<u8>|
            is_timestamp(now) && #[trigger] message_is(
                r,
                timestamp_report_spec(now, ts_cts, ts_fer, ts_ferc, ts_pir),
            ),
{
    let now = format_now();
    timestamp_report(&now, ts_cts, ts_fer, ts_ferc, ts_pir)
}

/// The session metrics message at the time `now`: what the four session
/// counters have gained since they were last reported. The deltas are
/// consumed: this report becomes the last one.
pub fn session_report(state: &mut State, now: &FixedWidthTimestamp) -> (out: [u8; SM_MESSAGE_LEN])
    ensures
        final(state)@.wf(),
        (final(state)@, out@) == old(state)@.report_session(now@),
{
    let deltas = state.snapshot_session_deltas();
    encode_session_message(now, deltas)
}

/// The session metrics message, stamped with the current time; see
/// [`session_report`].
pub fn bpm_sm(state: &mut State) -> (out: [u8; SM_MESSAGE_LEN])
    ensures
        final(state)@.wf(),
        exists|now: Seq<u8>|
            is_timestamp(now) && (final(state)@, out@) == #[trigger] old(state)@.report_session(now),
{
    let now = format_now();
    session_report(state, &now)
}

/// The encoded rendition metrics message of track `track_idx` at the time
/// `now`: what the track's three counters have gained since they were last
/// reported. The deltas are consumed: this report becomes the last one.
///
/// An index that no registered track has is refused with `OutOfRange`, and
/// the state stays as it was.
pub fn rendition_report(state: &mut State, now: &FixedWidthTimestamp, track_idx: u32) -> (r: Result<
    [u8; ERM_MESSAGE_LEN],
    BpmError,
>)
    ensures
        final(state)@.wf(),
        final(state)@ == old(state)@.report_track(now@, track_idx as int).0,
        message_is(r, old(state)@.report_track(now@, track_idx as int).1),
{
    match state.snapshot_track_deltas(track_idx as usize) {
        Ok(deltas) => Ok(encode_rendition_message(now, deltas)),
        Err(e) => Err(e),
    }
}

/// The encoded rendition metrics message of track `track_idx`, stamped
/// with the current time; see [`rendition_report`].
pub fn bpm_erm(state: &mut State, track_idx: u32) -> (r: Result<[u8; ERM_MESSAGE_LEN], BpmError>)
    ensures
        final(state)@.wf(),
        exists|now: Seq<u8>|
            is_timestamp(now) && final(state)@ == old(state)@.report_track(now, track_idx as int).0
                && #[trigger] message_is(r, old(state)@.report_track(now, track_idx as int).1),
{
    let now = format_now();
    rendition_report(state, &now, track_idx)
}

/// The combined payload for track `track_index` at the time `now`: the
/// timestamp message, the session metrics message and the track's rendition
/// metrics message back to back, 250 bytes in all. The deltas of the session
/// and of the track are consumed.
///
/// An index that no registered track has is refused with `OutOfRange`, and
/// the state stays as it was: no delta is consumed.
pub fn payload_report(state: &mut State, now: &FixedWidthTimestamp, track_index: u32) -> (r: Result<
    [u8; PAYLOAD_LEN],
    BpmError,
>)
    ensures
        final(state)@.wf(),
        final(state)@ == old(state)@.render(now@, track_index as int).0,
        message_is(r, old(state)@.render(now@, track_index as int).1),
{
    let track = match state.snapshot_track_deltas(track_index as usize) {
        Ok(track) => track,
        Err(e) => {
            return Err(e);
        },
    };
    let session = state.snapshot_session_deltas();
    Ok(encode_payload(now, session, track))
}

/// The combined payload for track `track_index`, stamped with the current
/// time; see [`payload_report`]. The payload is always 250 bytes long.
pub fn render_payload(state: &mut State, track_index: u32) -> (r: Result<[u8; PAYLOAD_LEN], BpmError>)
    ensures
        final(state)@.wf(),
        r matches Ok(out) ==> out@.len() == PAYLOAD_LEN,
        exists|now: Seq<u8>|
            is_timestamp(now) && final(state)@ == old(state)@.render(now, track_index as int).0
                && #[trigger] message_is(r, old(state)@.render(now, track_index as int).1),
{
    let now = format_now();
    payload_report(state, &now, track_index)
}

} // verus!
