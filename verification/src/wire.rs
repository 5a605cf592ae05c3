use crate::counters::{SessionCounters, TrackCounters};
use crate::timestamp::{FixedWidthTimestamp, TIMESTAMP_WIDTH};
use vstd::prelude::*;

verus! {

/// Identifier that opens a timestamp message.
pub const UUID_TS: [u8; 16] = [
    0x0a, 0xec, 0xff, 0xe7, 0x52, 0x72, 0x4e, 0x2f, 0xa6, 0x2f, 0xd1, 0x9c, 0xd6, 0x1a, 0x93, 0xb5,
];

/// Identifier that opens a session metrics message.
pub const UUID_SM: [u8; 16] = [
    0xca, 0x60, 0xe7, 0x1c, 0x6a, 0x8b, 0x43, 0x88, 0xa3, 0x77, 0x15, 0x1d, 0xf7, 0xbf, 0x8a, 0xc2,
];

/// Identifier that opens an encoded rendition metrics message.
pub const UUID_ERM: [u8; 16] = [
    0xf1, 0xfb, 0xc1, 0xd5, 0x10, 0x1e, 0x4f, 0xb5, 0xa6, 0x1e, 0xb8, 0xce, 0x3c, 0x07, 0xb8, 0xc0,
];

/// Type tag of a timestamp given as RFC 3339 text.
pub const TS_TYPE_RFC3339: u8 = 1;

/// Event tag: composition time.
pub const TS_EVENT_CTS: u8 = 1;

/// Event tag: frame encode request.
pub const TS_EVENT_FER: u8 = 2;

/// Event tag: frame encode request complete.
pub const TS_EVENT_FERC: u8 = 3;

/// Event tag: packet interleave request.
pub const TS_EVENT_PIR: u8 = 4;

/// Counter tag of the session metrics: frames rendered.
pub const SM_FRAMES_RENDERED: u8 = 1;

/// Counter tag of the session metrics: frames lagged.
pub const SM_FRAMES_LAGGED: u8 = 2;

/// Counter tag of the session metrics: frames dropped.
pub const SM_FRAMES_DROPPED: u8 = 3;

/// Counter tag of the session metrics: frames output.
pub const SM_FRAMES_OUTPUT: u8 = 4;

/// Counter tag of the rendition metrics: frames input.
pub const ERM_FRAMES_INPUT: u8 = 1;

/// Counter tag of the rendition metrics: frames skipped.
pub const ERM_FRAMES_SKIPPED: u8 = 2;

/// Counter tag of the rendition metrics: frames output.
pub const ERM_FRAMES_OUTPUT: u8 = 3;

/// Bytes of one timestamp entry: type tag, event tag, text, terminator.
pub const TS_ENTRY_LEN: usize = 27;

/// Bytes of one counter entry: counter tag and a 32-bit value.
pub const COUNTER_ENTRY_LEN: usize = 5;

/// Bytes of a timestamp message.
pub const TS_MESSAGE_LEN: usize = 125;

/// Bytes of a session metrics message.
pub const SM_MESSAGE_LEN: usize = 65;

/// Bytes of an encoded rendition metrics message.
pub const ERM_MESSAGE_LEN: usize = 60;

/// Bytes of the combined payload.
pub const PAYLOAD_LEN: usize = 250;

/// The four bytes of `value`, most significant first.
pub open spec fn be_bytes(value: u32) -> Seq<u8> {
    seq![
        (value / 0x100_0000) as u8,
        (value / 0x1_0000 % 0x100) as u8,
        (value / 0x100 % 0x100) as u8,
        (value % 0x100) as u8,
    ]
}

/// The number that four bytes spell, most significant first.
pub open spec fn be_value(bytes: Seq<u8>) -> int {
    bytes[0] * 0x100_0000 + bytes[1] * 0x1_0000 + bytes[2] * 0x100 + bytes[3]
}

/// The byte that announces `entries` entries of one kind: four reserved
/// zero bits, then the number of entries less one.
pub open spec fn count_byte(entries: nat) -> u8
    recommends
        1 <= entries <= 16,
{
    (entries - 1) as u8
}

/// One timestamp entry: the text type tag, the event tag, the text and a
/// terminating zero byte.
pub open spec fn timestamp_entry(event: u8, stamp: Seq<u8>) -> Seq<u8> {
    seq![TS_TYPE_RFC3339, event] + stamp + seq![0u8]
}

/// One counter entry: the counter tag and the value, most significant byte first.
pub open spec fn counter_entry(tag: u8, value: u32) -> Seq<u8> {
    seq![tag] + be_bytes(value)
}

/// The timestamp message: identifier, entry count less one, and the four
/// events in their fixed order.
pub open spec fn timestamp_message(cts: Seq<u8>, fer: Seq<u8>, ferc: Seq<u8>, pir: Seq<u8>) -> Seq<u8> {
    UUID_TS@ + seq![count_byte(4)]
        + timestamp_entry(TS_EVENT_CTS, cts)
        + timestamp_entry(TS_EVENT_FER, fer)
        + timestamp_entry(TS_EVENT_FERC, ferc)
        + timestamp_entry(TS_EVENT_PIR, pir)
}

/// The session metrics message: identifier, one packet-interleave timestamp,
/// then the four session counters in their fixed order.
pub open spec fn session_message(stamp: Seq<u8>, deltas: SessionCounters) -> Seq<u8> {
    UUID_SM@ + seq![count_byte(1)]
        + timestamp_entry(TS_EVENT_PIR, stamp)
        + seq![count_byte(4)]
        + counter_entry(SM_FRAMES_RENDERED, deltas.rendered)
        + counter_entry(SM_FRAMES_LAGGED, deltas.lagged)
        + counter_entry(SM_FRAMES_DROPPED, deltas.dropped)
        + counter_entry(SM_FRAMES_OUTPUT, deltas.output)
}

/// The encoded rendition metrics message: identifier, one packet-interleave
/// timestamp, then the three rendition counters in their fixed order.
pub open spec fn rendition_message(stamp: Seq<u8>, deltas: TrackCounters) -> Seq<u8> {
    UUID_ERM@ + seq![count_byte(1)]
        + timestamp_entry(TS_EVENT_PIR, stamp)
        + seq![count_byte(3)]
        + counter_entry(ERM_FRAMES_INPUT, deltas.input)
        + counter_entry(ERM_FRAMES_SKIPPED, deltas.skipped)
        + counter_entry(ERM_FRAMES_OUTPUT, deltas.output)
}

/// The combined payload: the three messages back to back, all stamped `stamp`.
pub open spec fn combined_payload(
    stamp: Seq<u8>,
    session: SessionCounters,
    track: TrackCounters,
) -> Seq<u8> {
    timestamp_message(stamp, stamp, stamp, stamp)
        + session_message(stamp, session)
        + rendition_message(stamp, track)
}

/// The text of the timestamp entry that starts at `entry`.
pub open spec fn stamp_at(message: Seq<u8>, entry: int) -> Seq<u8> {
    message.subrange(entry + 2, entry + 2 + TIMESTAMP_WIDTH)
}

/// The value of the counter entry that starts at `entry`.
pub open spec fn counter_at(message: Seq<u8>, entry: int) -> u32 {
    be_value(message.subrange(entry + 1, entry + COUNTER_ENTRY_LEN)) as u32
}

/// The four timestamps that a timestamp message carries, in wire order.
pub open spec fn decode_timestamp_message(message: Seq<u8>) -> (Seq<u8>, Seq<u8>, Seq<u8>, Seq<u8>) {
    (stamp_at(message, 17), stamp_at(message, 44), stamp_at(message, 71), stamp_at(message, 98))
}

/// The timestamp and the deltas that a session metrics message carries.
pub open spec fn decode_session_message(message: Seq<u8>) -> (Seq<u8>, SessionCounters) {
    (
        stamp_at(message, 17),
        SessionCounters {
            rendered: counter_at(message, 45),
            lagged: counter_at(message, 50),
            dropped: counter_at(message, 55),
            output: counter_at(message, 60),
        },
    )
}

/// The timestamp and the deltas that a rendition metrics message carries.
pub open spec fn decode_rendition_message(message: Seq<u8>) -> (Seq<u8>, TrackCounters) {
    (
        stamp_at(message, 17),
        TrackCounters {
            input: counter_at(message, 45),
            skipped: counter_at(message, 50),
            output: counter_at(message, 55),
        },
    )
}

/// Four bytes written most significant first spell the value they were
/// written from, whatever the byte order of the machine.
pub proof fn law_be_round_trip(value: u32)
    ensures
        be_bytes(value).len() == 4,
        be_value(be_bytes(value)) == value,
{
}

/// A timestamp entry is 27 bytes: the text type tag, the event tag, the
/// text, and a zero byte.
pub proof fn law_timestamp_entry_layout(event: u8, stamp: Seq<u8>)
    requires
        stamp.len() == TIMESTAMP_WIDTH,
    ensures
        timestamp_entry(event, stamp).len() == TS_ENTRY_LEN,
        timestamp_entry(event, stamp)[0] == TS_TYPE_RFC3339,
        timestamp_entry(event, stamp)[1] == event,
        timestamp_entry(event, stamp).subrange(2, 26) == stamp,
        timestamp_entry(event, stamp)[26] == 0,
{
    assert(timestamp_entry(event, stamp).subrange(2, 26) =~= stamp);
}

/// A counter entry is 5 bytes: the tag, then the value most significant
/// byte first.
pub proof fn law_counter_entry_layout(tag: u8, value: u32)
    ensures
        counter_entry(tag, value).len() == COUNTER_ENTRY_LEN,
        counter_entry(tag, value)[0] == tag,
        counter_entry(tag, value).subrange(1, 5) == be_bytes(value),
        be_value(counter_entry(tag, value).subrange(1, 5)) == value,
{
    assert(counter_entry(tag, value).subrange(1, 5) =~= be_bytes(value));
}

/// The timestamp message is 125 bytes: the identifier in bytes 0 to 15, the
/// entry count less one in byte 16, and the four entries from bytes 17, 44,
/// 71 and 98 on, in the order composition time, frame encode request, frame
/// encode request complete, packet interleave request. Reading the four
/// texts back gives the timestamps that were written.
pub proof fn law_timestamp_message_layout(cts: Seq<u8>, fer: Seq<u8>, ferc: Seq<u8>, pir: Seq<u8>)
    requires
        cts.len() == TIMESTAMP_WIDTH,
        fer.len() == TIMESTAMP_WIDTH,
        ferc.len() == TIMESTAMP_WIDTH,
        pir.len() == TIMESTAMP_WIDTH,
    ensures
        timestamp_message(cts, fer, ferc, pir).len() == TS_MESSAGE_LEN,
        timestamp_message(cts, fer, ferc, pir).subrange(0, 16) == UUID_TS@,
        timestamp_message(cts, fer, ferc, pir)[16] == 0x03,
        timestamp_message(cts, fer, ferc, pir).subrange(17, 44) == timestamp_entry(TS_EVENT_CTS, cts),
        timestamp_message(cts, fer, ferc, pir).subrange(44, 71) == timestamp_entry(TS_EVENT_FER, fer),
        timestamp_message(cts, fer, ferc, pir).subrange(71, 98) == timestamp_entry(
            TS_EVENT_FERC,
            ferc,
        ),
        timestamp_message(cts, fer, ferc, pir).subrange(98, 125) == timestamp_entry(TS_EVENT_PIR, pir),
        decode_timestamp_message(timestamp_message(cts, fer, ferc, pir)) == (cts, fer, ferc, pir),
{
    let m = timestamp_message(cts, fer, ferc, pir);
    assert(m.subrange(0, 16) =~= UUID_TS@);
    assert(m.subrange(17, 44) =~= timestamp_entry(TS_EVENT_CTS, cts));
    assert(m.subrange(44, 71) =~= timestamp_entry(TS_EVENT_FER, fer));
    assert(m.subrange(71, 98) =~= timestamp_entry(TS_EVENT_FERC, ferc));
    assert(m.subrange(98, 125) =~= timestamp_entry(TS_EVENT_PIR, pir));
    assert(stamp_at(m, 17) =~= cts);
    assert(stamp_at(m, 44) =~= fer);
    assert(stamp_at(m, 71) =~= ferc);
    assert(stamp_at(m, 98) =~= pir);
}

/// The session metrics message is 65 bytes: the identifier in bytes 0 to 15,
/// a zero count byte for its single timestamp, the packet-interleave entry
/// from byte 17 on, the counter count less one in byte 44, and the entries
/// for rendered, lagged, dropped and output from bytes 45, 50, 55 and 60 on.
/// Reading the fields back gives the timestamp and the deltas that were
/// written.
pub proof fn law_session_message_layout(stamp: Seq<u8>, deltas: SessionCounters)
    requires
        stamp.len() == TIMESTAMP_WIDTH,
    ensures
        session_message(stamp, deltas).len() == SM_MESSAGE_LEN,
        session_message(stamp, deltas).subrange(0, 16) == UUID_SM@,
        session_message(stamp, deltas)[16] == 0x00,
        session_message(stamp, deltas).subrange(17, 44) == timestamp_entry(TS_EVENT_PIR, stamp),
        session_message(stamp, deltas)[44] == 0x03,
        session_message(stamp, deltas).subrange(45, 50) == counter_entry(
            SM_FRAMES_RENDERED,
            deltas.rendered,
        ),
        session_message(stamp, deltas).subrange(50, 55) == counter_entry(
            SM_FRAMES_LAGGED,
            deltas.lagged,
        ),
        session_message(stamp, deltas).subrange(55, 60) == counter_entry(
            SM_FRAMES_DROPPED,
            deltas.dropped,
        ),
        session_message(stamp, deltas).subrange(60, 65) == counter_entry(
            SM_FRAMES_OUTPUT,
            deltas.output,
        ),
        decode_session_message(session_message(stamp, deltas)) == (stamp, deltas),
{
    let m = session_message(stamp, deltas);
    assert(m.subrange(0, 16) =~= UUID_SM@);
    assert(m.subrange(17, 44) =~= timestamp_entry(TS_EVENT_PIR, stamp));
    assert(m.subrange(45, 50) =~= counter_entry(SM_FRAMES_RENDERED, deltas.rendered));
    assert(m.subrange(50, 55) =~= counter_entry(SM_FRAMES_LAGGED, deltas.lagged));
    assert(m.subrange(55, 60) =~= counter_entry(SM_FRAMES_DROPPED, deltas.dropped));
    assert(m.subrange(60, 65) =~= counter_entry(SM_FRAMES_OUTPUT, deltas.output));
    assert(stamp_at(m, 17) =~= stamp);
    assert(m.subrange(46, 50) =~= be_bytes(deltas.rendered));
    assert(m.subrange(51, 55) =~= be_bytes(deltas.lagged));
    assert(m.subrange(56, 60) =~= be_bytes(deltas.dropped));
    assert(m.subrange(61, 65) =~= be_bytes(deltas.output));
    law_be_round_trip(deltas.rendered);
    law_be_round_trip(deltas.lagged);
    law_be_round_trip(deltas.dropped);
    law_be_round_trip(deltas.output);
}

/// The rendition metrics message is 60 bytes: the identifier in bytes 0 to
/// 15, a zero count byte for its single timestamp, the packet-interleave
/// entry from byte 17 on, the counter count less one in byte 44, and the
/// entries for input, skipped and output from bytes 45, 50 and 55 on.
/// Reading the fields back gives the timestamp and the deltas that were
/// written.
pub proof fn law_rendition_message_layout(stamp: Seq<u8>, deltas: TrackCounters)
    requires
        stamp.len() == TIMESTAMP_WIDTH,
    ensures
        rendition_message(stamp, deltas).len() == ERM_MESSAGE_LEN,
        rendition_message(stamp, deltas).subrange(0, 16) == UUID_ERM@,
        rendition_message(stamp, deltas)[16] == 0x00,
        rendition_message(stamp, deltas).subrange(17, 44) == timestamp_entry(TS_EVENT_PIR, stamp),
        rendition_message(stamp, deltas)[44] == 0x02,
        rendition_message(stamp, deltas).subrange(45, 50) == counter_entry(
            ERM_FRAMES_INPUT,
            deltas.input,
        ),
        rendition_message(stamp, deltas).subrange(50, 55) == counter_entry(
            ERM_FRAMES_SKIPPED,
            deltas.skipped,
        ),
        rendition_message(stamp, deltas).subrange(55, 60) == counter_entry(
            ERM_FRAMES_OUTPUT,
            deltas.output,
        ),
        decode_rendition_message(rendition_message(stamp, deltas)) == (stamp, deltas),
{
    let m = rendition_message(stamp, deltas);
    assert(m.subrange(0, 16) =~= UUID_ERM@);
    assert(m.subrange(17, 44) =~= timestamp_entry(TS_EVENT_PIR, stamp));
    assert(m.subrange(45, 50) =~= counter_entry(ERM_FRAMES_INPUT, deltas.input));
    assert(m.subrange(50, 55) =~= counter_entry(ERM_FRAMES_SKIPPED, deltas.skipped));
    assert(m.subrange(55, 60) =~= counter_entry(ERM_FRAMES_OUTPUT, deltas.output));
    assert(stamp_at(m, 17) =~= stamp);
    assert(m.subrange(46, 50) =~= be_bytes(deltas.input));
    assert(m.subrange(51, 55) =~= be_bytes(deltas.skipped));
    assert(m.subrange(56, 60) =~= be_bytes(deltas.output));
    law_be_round_trip(deltas.input);
    law_be_round_trip(deltas.skipped);
    law_be_round_trip(deltas.output);
}

/// The combined payload is always 250 bytes: the timestamp message in
/// bytes 0 to 124, the session metrics message in bytes 125 to 189 and the
/// rendition metrics message in bytes 190 to 249. Each of the three opens
/// with its own identifier, and reading the payload back gives the
/// timestamp and the deltas that were written.
pub proof fn law_payload_layout(stamp: Seq<u8>, session: SessionCounters, track: TrackCounters)
    requires
        stamp.len() == TIMESTAMP_WIDTH,
    ensures
        combined_payload(stamp, session, track).len() == PAYLOAD_LEN,
        combined_payload(stamp, session, track).subrange(0, 125) == timestamp_message(
            stamp,
            stamp,
            stamp,
            stamp,
        ),
        combined_payload(stamp, session, track).subrange(125, 190) == session_message(stamp, session),
        combined_payload(stamp, session, track).subrange(190, 250) == rendition_message(stamp, track),
        combined_payload(stamp, session, track).subrange(0, 16) == UUID_TS@,
        combined_payload(stamp, session, track).subrange(125, 141) == UUID_SM@,
        combined_payload(stamp, session, track).subrange(190, 206) == UUID_ERM@,
        decode_session_message(combined_payload(stamp, session, track).subrange(125, 190)) == (
            stamp,
            session,
        ),
        decode_rendition_message(combined_payload(stamp, session, track).subrange(190, 250)) == (
            stamp,
            track,
        ),
{
    let ts = timestamp_message(stamp, stamp, stamp, stamp);
    let sm = session_message(stamp, session);
    let erm = rendition_message(stamp, track);
    let p = combined_payload(stamp, session, track);
    law_timestamp_message_layout(stamp, stamp, stamp, stamp);
    law_session_message_layout(stamp, session);
    law_rendition_message_layout(stamp, track);
    assert(p.subrange(0, 125) =~= ts);
    assert(p.subrange(125, 190) =~= sm);
    assert(p.subrange(190, 250) =~= erm);
    assert(p.subrange(0, 16) =~= ts.subrange(0, 16));
    assert(p.subrange(125, 141) =~= sm.subrange(0, 16));
    assert(p.subrange(190, 206) =~= erm.subrange(0, 16));
}

/// Writes `src` into `out` from position `at` on and returns the position
/// after it. What stood before `at` stays.
fn put_slice<const N: usize>(out: &mut [u8; N], at: usize, src: &[u8]) -> (end: usize)
    requires
        at + src@.len() <= N,
    ensures
        end == at + src@.len(),
        final(out)@.take(end as int) == old(out)@.take(at as int) + src@,
{
    let mut k: usize = 0;
    while k < src.len()
        invariant
            k <= src@.len(),
            at + src@.len() <= N,
            out@.take(at + k) == old(out)@.take(at as int) + src@.take(k as int),
        decreases src@.len() - k,
    {
        let ghost before = out@;
        out[at + k] = src[k];
        k = k + 1;
        assert(out@.take(at + k) =~= before.take(at + k - 1).push(src@[k - 1]));
    }
    at + k
}

/// Writes one byte at position `at` and returns the position after it.
fn put_byte<const N: usize>(out: &mut [u8; N], at: usize, value: u8) -> (end: usize)
    requires
        at < N,
    ensures
        end == at + 1,
        final(out)@.take(end as int) == old(out)@.take(at as int) + seq![value],
{
    out[at] = value;
    at + 1
}

/// The four bytes of `value`, most significant first.
pub fn to_be_bytes(value: u32) -> (bytes: [u8; 4])
    ensures
        bytes@ == be_bytes(value),
{
    let b0: u8 = (value >> 24) as u8;
    let b1: u8 = ((value >> 16) & 0xff) as u8;
    let b2: u8 = ((value >> 8) & 0xff) as u8;
    let b3: u8 = (value & 0xff) as u8;
    assert((value >> 24) == value / 0x100_0000) by (bit_vector);
    assert(((value >> 16) & 0xff) == value / 0x1_0000 % 0x100) by (bit_vector);
    assert(((value >> 8) & 0xff) == value / 0x100 % 0x100) by (bit_vector);
    assert((value & 0xff) == value % 0x100) by (bit_vector);
    [b0, b1, b2, b3]
}

/// The byte that announces `entries` entries of one kind.
fn entry_count(entries: u8) -> (byte: u8)
    requires
        1 <= entries <= 16,
    ensures
        byte == count_byte(entries as nat),
        byte < 16,
{
    entries - 1
}

/// Writes one timestamp entry at `at`.
fn put_timestamp<const N: usize>(
    out: &mut [u8; N],
    at: usize,
    event: u8,
    stamp: &FixedWidthTimestamp,
) -> (end: usize)
    requires
        at + TS_ENTRY_LEN <= N,
    ensures
        end == at + TS_ENTRY_LEN,
        final(out)@.take(end as int) == old(out)@.take(at as int) + timestamp_entry(event, stamp@),
{
    let p = put_byte(out, at, TS_TYPE_RFC3339);
    let p = put_byte(out, p, event);
    let p = put_slice(out, p, stamp.text.as_slice());
    put_byte(out, p, 0)
}

/// Writes one counter entry at `at`.
fn put_counter<const N: usize>(out: &mut [u8; N], at: usize, tag: u8, value: u32) -> (end: usize)
    requires
        at + COUNTER_ENTRY_LEN <= N,
    ensures
        end == at + COUNTER_ENTRY_LEN,
        final(out)@.take(end as int) == old(out)@.take(at as int) + counter_entry(tag, value),
{
    let bytes = to_be_bytes(value);
    let p = put_byte(out, at, tag);
    put_slice(out, p, bytes.as_slice())
}

/// Packs the timestamp message from the four event timestamps.
pub fn encode_timestamp_message(
    cts: &FixedWidthTimestamp,
    fer: &FixedWidthTimestamp,
    ferc: &FixedWidthTimestamp,
    pir: &FixedWidthTimestamp,
) -> (out: [u8; TS_MESSAGE_LEN])
    ensures
        out@ == timestamp_message(cts@, fer@, ferc@, pir@),
{
    let mut out: [u8; TS_MESSAGE_LEN] = [0u8; TS_MESSAGE_LEN];
    let p = put_slice(&mut out, 0, UUID_TS.as_slice());
    let p = put_byte(&mut out, p, entry_count(4));
    let p = put_timestamp(&mut out, p, TS_EVENT_CTS, cts);
    let p = put_timestamp(&mut out, p, TS_EVENT_FER, fer);
    let p = put_timestamp(&mut out, p, TS_EVENT_FERC, ferc);
    let p = put_timestamp(&mut out, p, TS_EVENT_PIR, pir);
    out
}

/// Packs the session metrics message from a timestamp and the four
/// session deltas.
pub fn encode_session_message(stamp: &FixedWidthTimestamp, deltas: SessionCounters) -> (out: [
    u8;
    SM_MESSAGE_LEN
])
    ensures
        out@ == session_message(stamp@, deltas),
{
    let mut out: [u8; SM_MESSAGE_LEN] = [0u8; SM_MESSAGE_LEN];
    let p = put_slice(&mut out, 0, UUID_SM.as_slice());
    let p = put_byte(&mut out, p, entry_count(1));
    let p = put_timestamp(&mut out, p, TS_EVENT_PIR, stamp);
    let p = put_byte(&mut out, p, entry_count(4));
    let p = put_counter(&mut out, p, SM_FRAMES_RENDERED, deltas.rendered);
    let p = put_counter(&mut out, p, SM_FRAMES_LAGGED, deltas.lagged);
    let p = put_counter(&mut out, p, SM_FRAMES_DROPPED, deltas.dropped);
    let p = put_counter(&mut out, p, SM_FRAMES_OUTPUT, deltas.output);
    out
}

/// Packs the encoded rendition metrics message from a timestamp and the
/// three deltas of one track.
pub fn encode_rendition_message(stamp: &FixedWidthTimestamp, deltas: TrackCounters) -> (out: [
    u8;
    ERM_MESSAGE_LEN
])
    ensures
        out@ == rendition_message(stamp@, deltas),
{
    let mut out: [u8; ERM_MESSAGE_LEN] = [0u8; ERM_MESSAGE_LEN];
    let p = put_slice(&mut out, 0, UUID_ERM.as_slice());
    let p = put_byte(&mut out, p, entry_count(1));
    let p = put_timestamp(&mut out, p, TS_EVENT_PIR, stamp);
    let p = put_byte(&mut out, p, entry_count(3));
    let p = put_counter(&mut out, p, ERM_FRAMES_INPUT, deltas.input);
    let p = put_counter(&mut out, p, ERM_FRAMES_SKIPPED, deltas.skipped);
    let p = put_counter(&mut out, p, ERM_FRAMES_OUTPUT, deltas.output);
    out
}

/// Packs the combined payload: the timestamp message, the session metrics
/// message and the rendition metrics message back to back, all three
/// carrying `stamp`.
pub fn encode_payload(
    stamp: &FixedWidthTimestamp,
    session: SessionCounters,
    track: TrackCounters,
) -> (out: [u8; PAYLOAD_LEN])
    ensures
        out@ == combined_payload(stamp@, session, track),
{
    let ts = encode_timestamp_message(stamp, stamp, stamp, stamp);
    let sm = encode_session_message(stamp, session);
    let erm = encode_rendition_message(stamp, track);
    let mut out: [u8; PAYLOAD_LEN] = [0u8; PAYLOAD_LEN];
    let p = put_slice(&mut out, 0, ts.as_slice());
    let p = put_slice(&mut out, p, sm.as_slice());
    let p = put_slice(&mut out, p, erm.as_slice());
    out
}

} // verus!
