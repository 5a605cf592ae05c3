use crate::counters::{bump, CounterView, FrameEvent, SessionCounters, TrackCounters};
use crate::error::BpmError;
use crate::registry::{registry_wf, resolve, MAX_TRACKS};
use vstd::prelude::*;
use vstd::string::*;
use vstd::utf8::*;

verus! {

/// The whole state as a mathematical value: the registered fingerprints in
/// the order of their indices, and the counters.
pub struct StateView {
    /// The registered fingerprints; a track's index is its position here.
    pub fingerprints: Seq<Seq<char>>,
    /// Session counters, and the counters of each registered track.
    pub counters: CounterView,
}

impl StateView {
    /// A state is well formed when its registry and its counters are, and
    /// every registered track has its counters.
    pub open spec fn wf(self) -> bool {
        &&& registry_wf(self.fingerprints)
        &&& self.counters.wf()
        &&& self.counters.tracks.len() == self.fingerprints.len()
    }

    /// The state of a fresh process.
    pub open spec fn fresh() -> StateView {
        StateView { fingerprints: Seq::empty(), counters: CounterView::fresh() }
    }

    /// The state with other counters and the same registry.
    pub open spec fn with_counters(self, counters: CounterView) -> StateView {
        StateView { counters, ..self }
    }

    /// Resolving `fingerprint`: the state afterwards, and the index that
    /// the call returns. A known fingerprint keeps its index and changes
    /// nothing. A new one is registered under the next index, with counters
    /// at zero, while there is room; with [`MAX_TRACKS`] tracks registered
    /// it is refused with `CapacityExceeded` and changes nothing.
    pub open spec fn resolve(self, fingerprint: Seq<char>) -> (StateView, Result<usize, BpmError>) {
        if self.fingerprints.contains(fingerprint) {
            (self, Ok(self.fingerprints.index_of(fingerprint) as usize))
        } else if self.fingerprints.len() < MAX_TRACKS {
            (
                StateView {
                    fingerprints: self.fingerprints.push(fingerprint),
                    counters: self.counters.with_track(),
                },
                Ok(self.fingerprints.len() as usize),
            )
        } else {
            (self, Err(BpmError::CapacityExceeded))
        }
    }

    /// Resolving a fingerprint that arrives as bytes: absent bytes, and
    /// bytes that are not valid UTF-8, are refused with `InvalidEncoding`
    /// and change nothing; valid UTF-8 is resolved as the text it spells.
    pub open spec fn resolve_bytes(self, fingerprint: Option<Seq<u8>>) -> (
        StateView,
        Result<usize, BpmError>,
    ) {
        match fingerprint {
            Some(bytes) => if valid_utf8(bytes) {
                self.resolve(decode_utf8(bytes))
            } else {
                (self, Err(BpmError::InvalidEncoding))
            },
            None => (self, Err(BpmError::InvalidEncoding)),
        }
    }

    /// Recording `event` for track `i`: the state afterwards, and what the
    /// call returns. An index that no registered track has is refused with
    /// `OutOfRange` and changes nothing.
    pub open spec fn record(self, i: int, event: FrameEvent) -> (StateView, Result<(), BpmError>) {
        (self.with_counters(self.counters.record(i, event).0), self.counters.record(i, event).1)
    }

    /// Reading the session deltas: the state afterwards, and the deltas.
    pub open spec fn read_session(self) -> (StateView, SessionCounters) {
        (self.with_counters(self.counters.session_reported_now()), self.counters.session_deltas())
    }

    /// Reading the deltas of track `i`: the state afterwards, and what the
    /// read returns. An index that no registered track has is refused with
    /// `OutOfRange` and changes nothing.
    pub open spec fn read_track(self, i: int) -> (StateView, Result<TrackCounters, BpmError>) {
        (self.with_counters(self.counters.read_track(i).0), self.counters.read_track(i).1)
    }
}

/// An index as the C surface reports it: the index itself, or -1 for any error.
pub open spec fn index_or_sentinel(r: Result<usize, BpmError>) -> i32 {
    match r {
        Ok(i) => i as i32,
        Err(_) => -1i32,
    }
}

/// The bytes of an optional slice.
pub open spec fn bytes_of(fingerprint: Option<&[u8]>) -> Option<Seq<u8>> {
    match fingerprint {
        Some(bytes) => Some(bytes@),
        None => None,
    }
}

/// Every operation keeps the state well formed. Resolving a fingerprint
/// acts on the registry as [`resolve`] says; frame events and reads leave
/// the registry alone.
pub proof fn law_operations_keep_state_wf(
    s: StateView,
    fingerprint: Seq<char>,
    i: int,
    event: FrameEvent,
)
    requires
        s.wf(),
    ensures
        StateView::fresh().wf(),
        s.resolve(fingerprint).0.wf(),
        s.resolve(fingerprint).0.fingerprints == resolve(s.fingerprints, fingerprint).0,
        s.resolve(fingerprint).1 == resolve(s.fingerprints, fingerprint).1,
        s.record(i, event).0.wf(),
        s.record(i, event).0.fingerprints == s.fingerprints,
        s.read_session().0.wf(),
        s.read_session().0.fingerprints == s.fingerprints,
        s.read_track(i).0.wf(),
        s.read_track(i).0.fingerprints == s.fingerprints,
{
}

/// Fingerprints that differ as bytes differ as text: two valid UTF-8 inputs
/// that spell the same text are the same bytes, so tracks are told apart
/// exactly as their byte strings are.
pub proof fn law_distinct_bytes_distinct_fingerprints(a: Seq<u8>, b: Seq<u8>)
    requires
        valid_utf8(a),
        valid_utf8(b),
        decode_utf8(a) == decode_utf8(b),
    ensures
        a == b,
{
    decode_utf8_encode_utf8(a);
    decode_utf8_encode_utf8(b);
}

/// Calls `core::str::from_utf8`.
///
/// As its documentation says, the call succeeds exactly on valid UTF-8, and
/// the string slice it returns then consists of the very bytes it was given.
#[verifier::external_body]
fn utf8_text(bytes: &[u8]) -> (text: Option<&str>)
    ensures
        match text {
            Some(s) => valid_utf8(bytes@) && s.spec_bytes() == bytes@,
            None => !valid_utf8(bytes@),
        },
{
    match core::str::from_utf8(bytes) {
        Ok(s) => Some(s),
        Err(_) => None,
    }
}

/// The fingerprints that a list of strings spells.
spec fn names_of(strings: Seq<String>) -> Seq<Seq<char>> {
    Seq::new(strings.len(), |i: int| strings[i]@)
}

/// Track registry and counter store of one encoding session.
///
/// The state is always well formed: no fingerprint is registered twice, at
/// most [`MAX_TRACKS`] tracks are registered, every track has its counters,
/// and no counter lies below the value it was last reported with.
#[derive(Debug)]
pub struct State {
    /// Track fingerprints; a track's index is its position here.
    track_map: Vec<String>,
    /// Running totals of the session.
    session: SessionCounters,
    /// The session totals when they were last reported.
    session_reported: SessionCounters,
    /// Running totals of each track, by track index. The slots of tracks
    /// that are not registered yet hold zero.
    tracks: [TrackCounters; MAX_TRACKS],
    /// Each track's totals when they were last reported.
    tracks_reported: [TrackCounters; MAX_TRACKS],
}

impl View for State {
    type V = StateView;

    closed spec fn view(&self) -> StateView {
        StateView {
            fingerprints: names_of(self.track_map@),
            counters: CounterView {
                session: self.session,
                session_reported: self.session_reported,
                tracks: self.tracks@.take(self.track_map@.len() as int),
                tracks_reported: self.tracks_reported@.take(self.track_map@.len() as int),
            },
        }
    }
}

impl State {
    /// What holds of every state: no fingerprint is registered twice, no
    /// more than [`MAX_TRACKS`] are registered, no counter lies below its
    /// last report, no more frames were rendered than were output, and the
    /// slots of tracks that are not registered yet hold zero.
    #[verifier::type_invariant]
    pub closed spec fn wf(&self) -> bool {
        &&& self.track_map@.len() <= MAX_TRACKS
        &&& self@.fingerprints.no_duplicates()
        &&& self.session.covers(self.session_reported)
        &&& self.session.rendered <= self.session.output
        &&& forall|i: int|
            0 <= i < MAX_TRACKS ==> (#[trigger] self.tracks@[i]).covers(self.tracks_reported@[i])
        &&& forall|i: int|
            self.track_map@.len() <= i < MAX_TRACKS ==> (#[trigger] self.tracks@[i])
                == TrackCounters::zero()
    }

    /// A state that meets its invariant has a well-formed view.
    proof fn lemma_view_wf(&self)
        requires
            self.wf(),
        ensures
            self@.wf(),
            self@.fingerprints.len() == self.track_map@.len(),
            self@.counters.tracks.len() == self.track_map@.len(),
            forall|i: int|
                0 <= i < self.track_map@.len() ==> #[trigger] self@.counters.tracks[i]
                    == self.tracks@[i],
            forall|i: int|
                0 <= i < self.track_map@.len() ==> #[trigger] self@.counters.tracks_reported[i]
                    == self.tracks_reported@[i],
    {
        assert forall|i: int| 0 <= i < self@.counters.tracks.len() implies (
        #[trigger] self@.counters.tracks[i]).covers(self@.counters.tracks_reported[i]) by {
            assert(self.tracks@[i].covers(self.tracks_reported@[i]));
        }
    }

    /// What an event on the counters of track `i` does to the view, where
    /// `before` is the state before it: the track's totals are replaced,
    /// and everything else but the session totals stays.
    proof fn lemma_track_replaced(&self, before: &State, i: int)
        requires
            before.wf(),
            self.track_map == before.track_map,
            self.session_reported == before.session_reported,
            self.tracks_reported == before.tracks_reported,
            0 <= i < self.track_map@.len(),
            self.tracks@ == before.tracks@.update(i, self.tracks@[i]),
        ensures
            self@ == (StateView {
                fingerprints: before@.fingerprints,
                counters: CounterView {
                    session: self.session,
                    session_reported: before@.counters.session_reported,
                    tracks: before@.counters.tracks.update(i, self.tracks@[i]),
                    tracks_reported: before@.counters.tracks_reported,
                },
            }),
    {
        before.lemma_view_wf();
        assert(self@.counters.tracks =~= before@.counters.tracks.update(i, self.tracks@[i]));
    }

    /// The state of a fresh process: no track, every counter at zero.
    pub fn new() -> (state: State)
        ensures
            state@ == StateView::fresh(),
            state@.wf(),
    {
        let zero = SessionCounters { rendered: 0, lagged: 0, dropped: 0, output: 0 };
        let no_frames = TrackCounters { input: 0, skipped: 0, output: 0 };
        let state = State {
            track_map: Vec::new(),
            session: zero,
            session_reported: zero,
            tracks: [no_frames; MAX_TRACKS],
            tracks_reported: [no_frames; MAX_TRACKS],
        };
        assert(state@.fingerprints =~= Seq::<Seq<char>>::empty());
        assert(state@.counters.tracks =~= Seq::<TrackCounters>::empty());
        assert(state@.counters.tracks_reported =~= Seq::<TrackCounters>::empty());
        state
    }

    /// The index of the track with `fingerprint`, if it is registered.
    /// Nothing is registered by the question.
    pub fn lookup(&self, fingerprint: &String) -> (found: Option<usize>)
        ensures
            match found {
                Some(i) => self@.fingerprints.contains(fingerprint@)
                    && i == self@.fingerprints.index_of(fingerprint@),
                None => !self@.fingerprints.contains(fingerprint@),
            },
    {
        proof {
            use_type_invariant(self);
        }
        let mut i: usize = 0;
        while i < self.track_map.len()
            invariant
                i <= self.track_map@.len(),
                self@.fingerprints.len() == self.track_map@.len(),
                self@.fingerprints.no_duplicates(),
                forall|j: int| 0 <= j < i ==> self@.fingerprints[j] != fingerprint@,
            decreases self.track_map@.len() - i,
        {
            if self.track_map[i] == *fingerprint {
                assert(self@.fingerprints[i as int] == fingerprint@);
                return Some(i);
            }
            i = i + 1;
        }
        None
    }

    /// Returns the index of the track with `fingerprint`, registering the
    /// track first where the fingerprint is new.
    ///
    /// A known fingerprint keeps its index. A new one gets the next index,
    /// and counters at zero. A new fingerprint when [`MAX_TRACKS`] tracks
    /// are registered is refused with `CapacityExceeded`, and the state
    /// stays as it was.
    pub fn get_track_index(&mut self, fingerprint: String) -> (r: Result<usize, BpmError>)
        ensures
            final(self)@.wf(),
            (final(self)@, r) == old(self)@.resolve(fingerprint@),
            match r {
                Ok(i) => i < final(self)@.fingerprints.len() && final(self)@.fingerprints[i as int]
                    == fingerprint@,
                Err(_) => !old(self)@.fingerprints.contains(fingerprint@),
            },
    {
        proof {
            use_type_invariant(&*self);
        }
        match self.lookup(&fingerprint) {
            Some(i) => Ok(i),
            None => {
                let index = self.track_map.len();
                if index >= MAX_TRACKS {
                    return Err(BpmError::CapacityExceeded);
                }
                // The state is taken apart and put together again around
                // the longer list of fingerprints.
                let mut taken = State::new();
                core::mem::swap(self, &mut taken);
                proof {
                    use_type_invariant(&taken);
                    taken.lemma_view_wf();
                }
                let State { mut track_map, session, session_reported, tracks, tracks_reported } = taken;
                let ghost known = track_map@;
                track_map.push(fingerprint);
                proof {
                    assert(names_of(track_map@) =~= names_of(known).push(fingerprint@));
                    assert(tracks@[index as int] == TrackCounters::zero());
                    assert(tracks@[index as int].covers(tracks_reported@[index as int]));
                    assert(tracks@.take(index + 1) =~= tracks@.take(index as int).push(
                        TrackCounters::zero(),
                    ));
                    assert(tracks_reported@.take(index + 1) =~= tracks_reported@.take(
                        index as int,
                    ).push(TrackCounters::zero()));
                }
                *self = State { track_map, session, session_reported, tracks, tracks_reported };
                Ok(index)
            },
        }
    }

    /// Number of registered tracks.
    pub fn track_count(&self) -> (n: usize)
        ensures
            n == self@.fingerprints.len(),
            n <= MAX_TRACKS,
    {
        proof {
            use_type_invariant(self);
            self.lemma_view_wf();
        }
        self.track_map.len()
    }

    /// The fingerprint of the track at `index`, if there is one.
    pub fn fingerprint(&self, index: usize) -> (name: Option<&String>)
        ensures
            match name {
                Some(s) => index < self@.fingerprints.len() && s@ == self@.fingerprints[index as int],
                None => index >= self@.fingerprints.len(),
            },
    {
        if index < self.track_map.len() {
            Some(&self.track_map[index])
        } else {
            None
        }
    }

    /// The running totals of the session.
    pub fn session_totals(&self) -> (totals: SessionCounters)
        ensures
            totals == self@.counters.session,
    {
        self.session
    }

    /// The running totals of the track at `index`, if there is one.
    pub fn track_totals(&self, index: usize) -> (totals: Option<TrackCounters>)
        ensures
            match totals {
                Some(t) => index < self@.counters.tracks.len()
                    && t == self@.counters.tracks[index as int],
                None => index >= self@.counters.tracks.len(),
            },
    {
        proof {
            use_type_invariant(self);
            self.lemma_view_wf();
        }
        if index < self.track_map.len() {
            Some(self.tracks[index])
        } else {
            None
        }
    }

    /// Counts one frame event of track `track_index`.
    ///
    /// An index that no registered track has is refused with `OutOfRange`,
    /// and nothing is counted.
    pub fn on_frame(&mut self, track_index: usize, event: FrameEvent) -> (r: Result<(), BpmError>)
        ensures
            final(self)@.wf(),
            (final(self)@, r) == old(self)@.record(track_index as int, event),
    {
        match event {
            FrameEvent::Encoded => self.on_frame_encoded(track_index),
            FrameEvent::Lagged => self.on_frame_lagged(track_index),
            FrameEvent::Dropped => self.on_frame_dropped(track_index),
        }
    }

    /// Counts a successfully encoded frame of track `track_index`: the
    /// session's `output` moves on, and `rendered` too where the track is
    /// the primary track 0; the track's `input` and `output` move on.
    ///
    /// An index that no registered track has is refused with `OutOfRange`,
    /// and nothing is counted.
    pub fn on_frame_encoded(&mut self, track_index: usize) -> (r: Result<(), BpmError>)
        ensures
            final(self)@.wf(),
            (final(self)@, r) == old(self)@.record(track_index as int, FrameEvent::Encoded),
    {
        proof {
            use_type_invariant(&*self);
            self.lemma_view_wf();
        }
        if track_index >= self.track_map.len() {
            return Err(BpmError::OutOfRange);
        }
        let session = self.session;
        self.session = SessionCounters {
            rendered: if track_index == 0 {
                bump(session.rendered)
            } else {
                session.rendered
            },
            lagged: session.lagged,
            dropped: session.dropped,
            output: bump(session.output),
        };
        let track = self.tracks[track_index];
        self.tracks[track_index] = TrackCounters {
            input: bump(track.input),
            skipped: track.skipped,
            output: bump(track.output),
        };
        proof {
            self.lemma_track_replaced(old(self), track_index as int);
        }
        Ok(())
    }

    /// Counts a frame of track `track_index` that lagged while encoding:
    /// the session's `lagged` moves on, and the track's `input` and
    /// `skipped`.
    ///
    /// An index that no registered track has is refused with `OutOfRange`,
    /// and nothing is counted.
    pub fn on_frame_lagged(&mut self, track_index: usize) -> (r: Result<(), BpmError>)
        ensures
            final(self)@.wf(),
            (final(self)@, r) == old(self)@.record(track_index as int, FrameEvent::Lagged),
    {
        proof {
            use_type_invariant(&*self);
            self.lemma_view_wf();
        }
        if track_index >= self.track_map.len() {
            return Err(BpmError::OutOfRange);
        }
        self.session.lagged = bump(self.session.lagged);
        let track = self.tracks[track_index];
        self.tracks[track_index] = TrackCounters {
            input: bump(track.input),
            skipped: bump(track.skipped),
            output: track.output,
        };
        proof {
            self.lemma_track_replaced(old(self), track_index as int);
        }
        Ok(())
    }

    /// Counts a frame of track `track_index` that was dropped: the
    /// session's `dropped` moves on, and the track's `input` and `skipped`.
    ///
    /// An index that no registered track has is refused with `OutOfRange`,
    /// and nothing is counted.
    pub fn on_frame_dropped(&mut self, track_index: usize) -> (r: Result<(), BpmError>)
        ensures
            final(self)@.wf(),
            (final(self)@, r) == old(self)@.record(track_index as int, FrameEvent::Dropped),
    {
        proof {
            use_type_invariant(&*self);
            self.lemma_view_wf();
        }
        if track_index >= self.track_map.len() {
            return Err(BpmError::OutOfRange);
        }
        self.session.dropped = bump(self.session.dropped);
        let track = self.tracks[track_index];
        self.tracks[track_index] = TrackCounters {
            input: bump(track.input),
            skipped: bump(track.skipped),
            output: track.output,
        };
        proof {
            self.lemma_track_replaced(old(self), track_index as int);
        }
        Ok(())
    }

    /// Reports what the session counters have gained since the last report,
    /// and makes this report the last one: a second call with no event in
    /// between reports zero.
    pub fn snapshot_session_deltas(&mut self) -> (deltas: SessionCounters)
        ensures
            final(self)@.wf(),
            (final(self)@, deltas) == old(self)@.read_session(),
    {
        proof {
            use_type_invariant(&*self);
        }
        let deltas = SessionCounters {
            rendered: self.session.rendered - self.session_reported.rendered,
            lagged: self.session.lagged - self.session_reported.lagged,
            dropped: self.session.dropped - self.session_reported.dropped,
            output: self.session.output - self.session_reported.output,
        };
        self.session_reported = self.session;
        deltas
    }

    /// Reports what the counters of track `track_index` have gained since
    /// their last report, and makes this report the last one.
    ///
    /// An index that no registered track has is refused with `OutOfRange`,
    /// and nothing changes.
    pub fn snapshot_track_deltas(&mut self, track_index: usize) -> (r: Result<TrackCounters, BpmError>)
        ensures
            final(self)@.wf(),
            (final(self)@, r) == old(self)@.read_track(track_index as int),
    {
        proof {
            use_type_invariant(&*self);
            self.lemma_view_wf();
        }
        if track_index >= self.track_map.len() {
            return Err(BpmError::OutOfRange);
        }
        let track = self.tracks[track_index];
        let reported = self.tracks_reported[track_index];
        let deltas = TrackCounters {
            input: track.input - reported.input,
            skipped: track.skipped - reported.skipped,
            output: track.output - reported.output,
        };
        self.tracks_reported[track_index] = track;
        assert(self@.counters.tracks_reported =~= old(self)@.counters.tracks_reported.update(
            track_index as int,
            track,
        ));
        Ok(deltas)
    }
}

impl Default for State {
    fn default() -> (state: State)
        ensures
            state@ == StateView::fresh(),
            state@.wf(),
    {
        State::new()
    }
}

/// Resolves a fingerprint that arrives as bytes from outside.
///
/// Bytes that are valid UTF-8 are resolved as [`State::get_track_index`]
/// resolves the text they spell. Absent bytes, and bytes that are not valid
/// UTF-8, are refused with `InvalidEncoding`, and the state stays as it was.
pub fn resolve_track(state: &mut State, fingerprint: Option<&[u8]>) -> (r: Result<usize, BpmError>)
    ensures
        final(state)@.wf(),
        (final(state)@, r) == old(state)@.resolve_bytes(bytes_of(fingerprint)),
{
    proof {
        use_type_invariant(&*state);
        state.lemma_view_wf();
    }
    let bytes = match fingerprint {
        Some(bytes) => bytes,
        None => {
            return Err(BpmError::InvalidEncoding);
        },
    };
    match utf8_text(bytes) {
        Some(text) => {
            proof {
                encode_utf8_decode_utf8(text@);
            }
            state.get_track_index(text.to_owned())
        },
        None => Err(BpmError::InvalidEncoding),
    }
}

/// The index of the track with the given fingerprint, or -1 where
/// [`resolve_track`] refuses it.
pub fn bpm_get_track_index(state: &mut State, track_fp: Option<&[u8]>) -> (index: i32)
    ensures
        final(state)@.wf(),
        final(state)@ == old(state)@.resolve_bytes(bytes_of(track_fp)).0,
        index == index_or_sentinel(old(state)@.resolve_bytes(bytes_of(track_fp)).1),
        -1 <= index < MAX_TRACKS,
{
    proof {
        use_type_invariant(&*state);
    }
    match resolve_track(state, track_fp) {
        Ok(i) => i as i32,
        Err(_) => -1,
    }
}

/// Records a successfully encoded frame of track `track_idx`: the session's
/// `output` moves on, and `rendered` too where the track is the primary
/// track 0; the track's `input` and `output` move on.
///
/// An index that no registered track has is refused with `OutOfRange`, and
/// nothing is counted.
pub fn bpm_frame_encoded(state: &mut State, track_idx: u32) -> (r: Result<(), BpmError>)
    ensures
        final(state)@.wf(),
        (final(state)@, r) == old(state)@.record(track_idx as int, FrameEvent::Encoded),
{
    state.on_frame_encoded(track_idx as usize)
}

/// Records a frame of track `track_idx` that lagged while encoding: the
/// session's `lagged` moves on, and the track's `input` and `skipped`.
///
/// An index that no registered track has is refused with `OutOfRange`, and
/// nothing is counted.
pub fn bpm_frame_lagged(state: &mut State, track_idx: u32) -> (r: Result<(), BpmError>)
    ensures
        final(state)@.wf(),
        (final(state)@, r) == old(state)@.record(track_idx as int, FrameEvent::Lagged),
{
    state.on_frame_lagged(track_idx as usize)
}

/// Records a frame of track `track_idx` that was dropped: the session's
/// `dropped` moves on, and the track's `input` and `skipped`.
///
/// An index that no registered track has is refused with `OutOfRange`, and
/// nothing is counted.
pub fn bpm_frame_dropped(state: &mut State, track_idx: u32) -> (r: Result<(), BpmError>)
    ensures
        final(state)@.wf(),
        (final(state)@, r) == old(state)@.record(track_idx as int, FrameEvent::Dropped),
{
    state.on_frame_dropped(track_idx as usize)
}

} // verus!
