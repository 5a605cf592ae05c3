use crate::error::BpmError;
use vstd::prelude::*;

verus! {

/// The four counters kept for the whole session.
#[derive(Clone, Copy, Debug, PartialEq, Eq, Structural)]
pub struct SessionCounters {
    /// Frames rendered by the compositor: successful encodes of track 0.
    pub rendered: u32,
    /// Frames that lagged while encoding.
    pub lagged: u32,
    /// Frames dropped due to network congestion.
    pub dropped: u32,
    /// Frames output, summed over all renditions.
    pub output: u32,
}

/// The three counters kept for one rendition.
#[derive(Clone, Copy, Debug, PartialEq, Eq, Structural)]
pub struct TrackCounters {
    /// Frames handed to the rendition's encoder.
    pub input: u32,
    /// Frames the encoder skipped: lagged or dropped.
    pub skipped: u32,
    /// Frames the encoder put out.
    pub output: u32,
}

/// A counter after one more event. Counters never wrap around: at the
/// largest 32-bit value they stay where they are.
pub open spec fn bumped(value: u32) -> u32 {
    if value < u32::MAX {
        (value + 1) as u32
    } else {
        value
    }
}

impl SessionCounters {
    /// All four counters at zero.
    pub open spec fn zero() -> SessionCounters {
        SessionCounters { rendered: 0, lagged: 0, dropped: 0, output: 0 }
    }

    /// Every counter is at least what `reported` holds of it.
    pub open spec fn covers(self, reported: SessionCounters) -> bool {
        &&& reported.rendered <= self.rendered
        &&& reported.lagged <= self.lagged
        &&& reported.dropped <= self.dropped
        &&& reported.output <= self.output
    }

    /// How far each counter has moved on from `reported`.
    pub open spec fn since(self, reported: SessionCounters) -> SessionCounters {
        SessionCounters {
            rendered: (self.rendered - reported.rendered) as u32,
            lagged: (self.lagged - reported.lagged) as u32,
            dropped: (self.dropped - reported.dropped) as u32,
            output: (self.output - reported.output) as u32,
        }
    }
}

impl TrackCounters {
    /// All three counters at zero.
    pub open spec fn zero() -> TrackCounters {
        TrackCounters { input: 0, skipped: 0, output: 0 }
    }

    /// Every counter is at least what `reported` holds of it.
    pub open spec fn covers(self, reported: TrackCounters) -> bool {
        &&& reported.input <= self.input
        &&& reported.skipped <= self.skipped
        &&& reported.output <= self.output
    }

    /// How far each counter has moved on from `reported`.
    pub open spec fn since(self, reported: TrackCounters) -> TrackCounters {
        TrackCounters {
            input: (self.input - reported.input) as u32,
            skipped: (self.skipped - reported.skipped) as u32,
            output: (self.output - reported.output) as u32,
        }
    }

    /// The counters after a frame was encoded.
    pub open spec fn encoded(self) -> TrackCounters {
        TrackCounters { input: bumped(self.input), skipped: self.skipped, output: bumped(self.output) }
    }

    /// The counters after a frame lagged or was dropped.
    pub open spec fn skipped_one(self) -> TrackCounters {
        TrackCounters { input: bumped(self.input), skipped: bumped(self.skipped), output: self.output }
    }
}

/// The counter store as a mathematical value: the running totals, and what
/// each of them was when it was last reported.
pub struct CounterView {
    /// Running totals of the session.
    pub session: SessionCounters,
    /// The session totals when they were last reported.
    pub session_reported: SessionCounters,
    /// Running totals of each track, by track index.
    pub tracks: Seq<TrackCounters>,
    /// Each track's totals when they were last reported.
    pub tracks_reported: Seq<TrackCounters>,
}

impl CounterView {
    /// A store is well formed when each track has its last report, no total
    /// lies below its last report, and no more frames were rendered than
    /// were output.
    pub open spec fn wf(self) -> bool {
        &&& self.tracks.len() == self.tracks_reported.len()
        &&& self.session.covers(self.session_reported)
        &&& self.session.rendered <= self.session.output
        &&& forall|i: int|
            0 <= i < self.tracks.len() ==> (#[trigger] self.tracks[i]).covers(self.tracks_reported[i])
    }

    /// The store of a fresh process: no tracks, every counter at zero.
    pub open spec fn fresh() -> CounterView {
        CounterView {
            session: SessionCounters::zero(),
            session_reported: SessionCounters::zero(),
            tracks: Seq::empty(),
            tracks_reported: Seq::empty(),
        }
    }

    /// The store with one more track, whose counters start at zero.
    pub open spec fn with_track(self) -> CounterView {
        CounterView {
            tracks: self.tracks.push(TrackCounters::zero()),
            tracks_reported: self.tracks_reported.push(TrackCounters::zero()),
            ..self
        }
    }

    /// The store after a frame of track `i` was encoded: the session's
    /// `output` moves on, and so does `rendered` where `i` is the primary
    /// track 0; the track's `input` and `output` move on.
    pub open spec fn frame_encoded(self, i: int) -> CounterView {
        CounterView {
            session: SessionCounters {
                rendered: if i == 0 {
                    bumped(self.session.rendered)
                } else {
                    self.session.rendered
                },
                output: bumped(self.session.output),
                ..self.session
            },
            tracks: self.tracks.update(i, self.tracks[i].encoded()),
            ..self
        }
    }

    /// The store after a frame of track `i` lagged: the session's `lagged`
    /// moves on, and the track's `input` and `skipped`.
    pub open spec fn frame_lagged(self, i: int) -> CounterView {
        CounterView {
            session: SessionCounters { lagged: bumped(self.session.lagged), ..self.session },
            tracks: self.tracks.update(i, self.tracks[i].skipped_one()),
            ..self
        }
    }

    /// The store after a frame of track `i` was dropped: the session's
    /// `dropped` moves on, and the track's `input` and `skipped`.
    pub open spec fn frame_dropped(self, i: int) -> CounterView {
        CounterView {
            session: SessionCounters { dropped: bumped(self.session.dropped), ..self.session },
            tracks: self.tracks.update(i, self.tracks[i].skipped_one()),
            ..self
        }
    }

    /// What the session counters have gained since they were last reported.
    pub open spec fn session_deltas(self) -> SessionCounters {
        self.session.since(self.session_reported)
    }

    /// The store once the session counters have been reported.
    pub open spec fn session_reported_now(self) -> CounterView {
        CounterView { session_reported: self.session, ..self }
    }

    /// What the counters of track `i` have gained since they were last reported.
    pub open spec fn track_deltas(self, i: int) -> TrackCounters {
        self.tracks[i].since(self.tracks_reported[i])
    }

    /// The store once the counters of track `i` have been reported.
    pub open spec fn track_reported_now(self, i: int) -> CounterView {
        CounterView { tracks_reported: self.tracks_reported.update(i, self.tracks[i]), ..self }
    }

    /// Reading the deltas of track `i`: the store afterwards, and what the
    /// read returns. An index that no track has is refused with
    /// `OutOfRange` and changes nothing.
    pub open spec fn read_track(self, i: int) -> (CounterView, Result<TrackCounters, BpmError>) {
        if 0 <= i < self.tracks.len() {
            (self.track_reported_now(i), Ok(self.track_deltas(i)))
        } else {
            (self, Err(BpmError::OutOfRange))
        }
    }
}

/// What can become of a frame that was handed to a track's encoder.
#[derive(Clone, Copy, Debug, PartialEq, Eq, Structural)]
pub enum FrameEvent {
    /// The frame was encoded.
    Encoded,
    /// The frame lagged while encoding.
    Lagged,
    /// The frame was dropped due to network congestion.
    Dropped,
}

/// How many of `events` are of the given `kind`.
pub open spec fn count_of(events: Seq<FrameEvent>, kind: FrameEvent) -> nat
    decreases events.len(),
{
    if events.len() == 0 {
        0
    } else {
        count_of(events.drop_last(), kind) + if events.last() == kind {
            1nat
        } else {
            0nat
        }
    }
}

impl CounterView {
    /// The store after `event` was recorded for track `i`.
    pub open spec fn after_event(self, i: int, event: FrameEvent) -> CounterView {
        match event {
            FrameEvent::Encoded => self.frame_encoded(i),
            FrameEvent::Lagged => self.frame_lagged(i),
            FrameEvent::Dropped => self.frame_dropped(i),
        }
    }

    /// Recording `event` for track `i`: the store afterwards, and what the
    /// call returns. An index that no track has is refused with
    /// `OutOfRange` and changes nothing.
    pub open spec fn record(self, i: int, event: FrameEvent) -> (CounterView, Result<(), BpmError>) {
        if 0 <= i < self.tracks.len() {
            (self.after_event(i, event), Ok(()))
        } else {
            (self, Err(BpmError::OutOfRange))
        }
    }

    /// The store after `events` were recorded for track `i` one after the
    /// other, with no report in between.
    pub open spec fn after_events(self, i: int, events: Seq<FrameEvent>) -> CounterView
        decreases events.len(),
    {
        if events.len() == 0 {
            self
        } else {
            self.after_events(i, events.drop_last()).after_event(i, events.last())
        }
    }
}

/// Every operation of the store keeps it well formed.
pub proof fn law_operations_keep_wf(c: CounterView, i: int)
    requires
        c.wf(),
    ensures
        CounterView::fresh().wf(),
        c.with_track().wf(),
        c.session_reported_now().wf(),
        0 <= i < c.tracks.len() ==> c.frame_encoded(i).wf(),
        0 <= i < c.tracks.len() ==> c.frame_lagged(i).wf(),
        0 <= i < c.tracks.len() ==> c.frame_dropped(i).wf(),
        0 <= i < c.tracks.len() ==> c.track_reported_now(i).wf(),
{
}

/// An encoded frame of track 0 adds one to both `rendered` and `output` of
/// the session; an encoded frame of any other track adds one to `output`
/// alone. This holds as long as `output` has not reached the largest 32-bit
/// value, where counters stop.
pub proof fn law_encoded_frame_session_counters(c: CounterView, i: int)
    requires
        c.wf(),
        0 <= i < c.tracks.len(),
        c.session.output < u32::MAX,
    ensures
        c.frame_encoded(i).session.output == c.session.output + 1,
        i == 0 ==> c.frame_encoded(i).session.rendered == c.session.rendered + 1,
        i > 0 ==> c.frame_encoded(i).session.rendered == c.session.rendered,
        c.frame_encoded(i).session.lagged == c.session.lagged,
        c.frame_encoded(i).session.dropped == c.session.dropped,
{
}

/// Every frame event of a track adds one to the track's `input`; an encoded
/// frame adds one to its `output` only, a lagged or dropped frame to its
/// `skipped` only. No other track changes, and no last report does. This
/// holds as long as the counters that move have not reached the largest
/// 32-bit value.
pub proof fn law_frame_events_track_counters(c: CounterView, i: int)
    requires
        c.wf(),
        0 <= i < c.tracks.len(),
        c.tracks[i].input < u32::MAX,
        c.tracks[i].skipped < u32::MAX,
        c.tracks[i].output < u32::MAX,
    ensures
        c.frame_encoded(i).tracks[i] == (TrackCounters {
            input: (c.tracks[i].input + 1) as u32,
            skipped: c.tracks[i].skipped,
            output: (c.tracks[i].output + 1) as u32,
        }),
        c.frame_lagged(i).tracks[i] == (TrackCounters {
            input: (c.tracks[i].input + 1) as u32,
            skipped: (c.tracks[i].skipped + 1) as u32,
            output: c.tracks[i].output,
        }),
        c.frame_dropped(i).tracks[i] == c.frame_lagged(i).tracks[i],
        forall|j: int|
            0 <= j < c.tracks.len() && j != i ==> c.frame_encoded(i).tracks[j] == c.tracks[j]
                && c.frame_lagged(i).tracks[j] == c.tracks[j] && c.frame_dropped(i).tracks[j]
                == c.tracks[j],
        c.frame_encoded(i).tracks_reported == c.tracks_reported,
        c.frame_lagged(i).tracks_reported == c.tracks_reported,
        c.frame_dropped(i).tracks_reported == c.tracks_reported,
{
}

/// Whether `events` can be counted for track `i` without any counter
/// reaching past the largest 32-bit value.
pub open spec fn room_for(c: CounterView, i: int, events: Seq<FrameEvent>) -> bool {
    &&& c.tracks[i].input + events.len() <= u32::MAX
    &&& c.tracks[i].skipped + count_of(events, FrameEvent::Lagged) + count_of(
        events,
        FrameEvent::Dropped,
    ) <= u32::MAX
    &&& c.tracks[i].output + count_of(events, FrameEvent::Encoded) <= u32::MAX
    &&& c.session.output + count_of(events, FrameEvent::Encoded) <= u32::MAX
    &&& c.session.lagged + count_of(events, FrameEvent::Lagged) <= u32::MAX
    &&& c.session.dropped + count_of(events, FrameEvent::Dropped) <= u32::MAX
}

/// What a run of events leaves in the store, counter by counter.
proof fn lemma_after_events(c: CounterView, i: int, events: Seq<FrameEvent>)
    requires
        c.wf(),
        0 <= i < c.tracks.len(),
        room_for(c, i, events),
    ensures
        count_of(events, FrameEvent::Encoded) + count_of(events, FrameEvent::Lagged) + count_of(
            events,
            FrameEvent::Dropped,
        ) == events.len(),
        c.after_events(i, events).wf(),
        c.after_events(i, events).tracks.len() == c.tracks.len(),
        c.after_events(i, events).tracks_reported == c.tracks_reported,
        c.after_events(i, events).session_reported == c.session_reported,
        forall|j: int|
            0 <= j < c.tracks.len() && j != i ==> c.after_events(i, events).tracks[j] == c.tracks[j],
        c.after_events(i, events).tracks[i].input == c.tracks[i].input + events.len(),
        c.after_events(i, events).tracks[i].skipped == c.tracks[i].skipped + count_of(
            events,
            FrameEvent::Lagged,
        ) + count_of(events, FrameEvent::Dropped),
        c.after_events(i, events).tracks[i].output == c.tracks[i].output + count_of(
            events,
            FrameEvent::Encoded,
        ),
        c.after_events(i, events).session.lagged == c.session.lagged + count_of(
            events,
            FrameEvent::Lagged,
        ),
        c.after_events(i, events).session.dropped == c.session.dropped + count_of(
            events,
            FrameEvent::Dropped,
        ),
        c.after_events(i, events).session.output == c.session.output + count_of(
            events,
            FrameEvent::Encoded,
        ),
        i == 0 ==> c.after_events(i, events).session.rendered == c.session.rendered + count_of(
            events,
            FrameEvent::Encoded,
        ),
        i != 0 ==> c.after_events(i, events).session.rendered == c.session.rendered,
    decreases events.len(),
{
    if events.len() > 0 {
        lemma_after_events(c, i, events.drop_last());
    }
}

/// Frame events between two reports add up. After `events` were recorded
/// for track `i`, the track's deltas have gained one `input` for every
/// event, one `skipped` for every lagged or dropped frame and one `output`
/// for every encoded frame. The session's deltas have gained one `lagged`,
/// `dropped` or `output` for every event of that kind, and one `rendered`
/// for every encoded frame where the track is the primary track 0. No other
/// track's deltas change. This holds as long as there is room for the events
/// below the largest 32-bit value.
pub proof fn law_frame_events_add_up(c: CounterView, i: int, events: Seq<FrameEvent>)
    requires
        c.wf(),
        0 <= i < c.tracks.len(),
        room_for(c, i, events),
    ensures
        c.after_events(i, events).wf(),
        c.after_events(i, events).tracks.len() == c.tracks.len(),
        c.after_events(i, events).track_deltas(i) == (TrackCounters {
            input: (c.track_deltas(i).input + events.len()) as u32,
            skipped: (c.track_deltas(i).skipped + count_of(events, FrameEvent::Lagged) + count_of(
                events,
                FrameEvent::Dropped,
            )) as u32,
            output: (c.track_deltas(i).output + count_of(events, FrameEvent::Encoded)) as u32,
        }),
        c.after_events(i, events).session_deltas() == (SessionCounters {
            rendered: (c.session_deltas().rendered + if i == 0 {
                count_of(events, FrameEvent::Encoded)
            } else {
                0
            }) as u32,
            lagged: (c.session_deltas().lagged + count_of(events, FrameEvent::Lagged)) as u32,
            dropped: (c.session_deltas().dropped + count_of(events, FrameEvent::Dropped)) as u32,
            output: (c.session_deltas().output + count_of(events, FrameEvent::Encoded)) as u32,
        }),
        forall|j: int|
            0 <= j < c.tracks.len() && j != i ==> c.after_events(i, events).track_deltas(j)
                == c.track_deltas(j),
{
    lemma_after_events(c, i, events);
}

/// Lagged and dropped frames between two reports: after N lagged and M
/// dropped frames of track `i`, in any order and with no encoded frame and
/// no report in between, a track that had just been reported reports
/// `input` = N + M, `skipped` = N + M and `output` = 0.
pub proof fn law_skipped_frames_add_up(c: CounterView, i: int, events: Seq<FrameEvent>)
    requires
        c.wf(),
        0 <= i < c.tracks.len(),
        room_for(c, i, events),
        count_of(events, FrameEvent::Encoded) == 0,
        c.tracks[i] == c.tracks_reported[i],
    ensures
        count_of(events, FrameEvent::Lagged) + count_of(events, FrameEvent::Dropped) == events.len(),
        c.after_events(i, events).track_deltas(i) == (TrackCounters {
            input: (count_of(events, FrameEvent::Lagged) + count_of(events, FrameEvent::Dropped)) as u32,
            skipped: (count_of(events, FrameEvent::Lagged) + count_of(
                events,
                FrameEvent::Dropped,
            )) as u32,
            output: 0,
        }),
{
    lemma_after_events(c, i, events);
}

/// Events can be recorded in either order: two events, for the same track
/// or for two tracks, leave the same totals whichever of them comes first.
pub proof fn law_events_commute(c: CounterView, i: int, a: FrameEvent, j: int, b: FrameEvent)
    requires
        c.wf(),
        0 <= i < c.tracks.len(),
        0 <= j < c.tracks.len(),
    ensures
        c.after_event(i, a).after_event(j, b) == c.after_event(j, b).after_event(i, a),
{
    let ab = c.after_event(i, a).after_event(j, b);
    let ba = c.after_event(j, b).after_event(i, a);
    assert(ab.tracks =~= ba.tracks);
}

/// Reading deltas consumes them: right after a report of the session and of
/// track `i`, with no event in between, every delta of the session and of
/// that track is zero, whatever was counted before.
pub proof fn law_second_read_is_zero(c: CounterView, i: int)
    requires
        c.wf(),
        0 <= i < c.tracks.len(),
    ensures
        c.session_reported_now().session_deltas() == SessionCounters::zero(),
        c.track_reported_now(i).track_deltas(i) == TrackCounters::zero(),
        c.session_reported_now().track_reported_now(i).session_deltas() == SessionCounters::zero(),
        c.session_reported_now().track_reported_now(i).track_deltas(i) == TrackCounters::zero(),
{
}

/// One more event on a counter, saturating at the largest value.
pub(crate) fn bump(value: u32) -> (r: u32)
    ensures
        r == bumped(value),
{
    value.saturating_add(1)
}

} // verus!
