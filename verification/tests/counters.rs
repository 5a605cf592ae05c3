use bpm_sei::{
    bpm_frame_dropped, bpm_frame_encoded, bpm_frame_lagged, BpmError, FrameEvent, SessionCounters,
    State, TrackCounters,
};

fn session(rendered: u32, lagged: u32, dropped: u32, output: u32) -> SessionCounters {
    SessionCounters { rendered, lagged, dropped, output }
}

fn track(input: u32, skipped: u32, output: u32) -> TrackCounters {
    TrackCounters { input, skipped, output }
}

fn state_with_tracks(n: usize) -> State {
    let mut state = State::new();
    for i in 0..n {
        assert_eq!(state.get_track_index(format!("track_{}", i)), Ok(i));
    }
    state
}

#[test]
fn encoded_frame_on_primary_track_counts_rendered_and_output() {
    let mut state = state_with_tracks(2);
    assert_eq!(bpm_frame_encoded(&mut state, 0), Ok(()));
    assert_eq!(state.session_totals(), session(1, 0, 0, 1));
    assert_eq!(state.track_totals(0), Some(track(1, 0, 1)));
    assert_eq!(state.track_totals(1), Some(track(0, 0, 0)));
}

#[test]
fn encoded_frame_on_other_track_counts_output_only() {
    let mut state = state_with_tracks(3);
    assert_eq!(bpm_frame_encoded(&mut state, 2), Ok(()));
    assert_eq!(state.session_totals(), session(0, 0, 0, 1));
    assert_eq!(state.track_totals(0), Some(track(0, 0, 0)));
    assert_eq!(state.track_totals(2), Some(track(1, 0, 1)));
    assert_eq!(bpm_frame_encoded(&mut state, 1), Ok(()));
    assert_eq!(bpm_frame_encoded(&mut state, 0), Ok(()));
    assert_eq!(state.session_totals(), session(1, 0, 0, 3));
}

#[test]
fn lagged_frame_counts_lagged_input_and_skipped() {
    let mut state = state_with_tracks(2);
    assert_eq!(bpm_frame_lagged(&mut state, 1), Ok(()));
    assert_eq!(state.session_totals(), session(0, 1, 0, 0));
    assert_eq!(state.track_totals(1), Some(track(1, 1, 0)));
    assert_eq!(state.track_totals(0), Some(track(0, 0, 0)));
}

#[test]
fn dropped_frame_counts_dropped_input_and_skipped() {
    let mut state = state_with_tracks(2);
    assert_eq!(bpm_frame_dropped(&mut state, 0), Ok(()));
    assert_eq!(state.session_totals(), session(0, 0, 1, 0));
    assert_eq!(state.track_totals(0), Some(track(1, 1, 0)));
    assert_eq!(state.track_totals(1), Some(track(0, 0, 0)));
}

#[test]
fn events_beyond_the_registered_tracks_are_refused() {
    let mut state = state_with_tracks(2);
    assert_eq!(bpm_frame_encoded(&mut state, 2), Err(BpmError::OutOfRange));
    assert_eq!(bpm_frame_lagged(&mut state, 5), Err(BpmError::OutOfRange));
    assert_eq!(bpm_frame_dropped(&mut state, u32::MAX), Err(BpmError::OutOfRange));
    assert_eq!(state.snapshot_track_deltas(2), Err(BpmError::OutOfRange));
    assert_eq!(state.session_totals(), session(0, 0, 0, 0));
    assert_eq!(state.track_totals(0), Some(track(0, 0, 0)));
    assert_eq!(state.track_totals(1), Some(track(0, 0, 0)));
    assert_eq!(state.snapshot_session_deltas(), session(0, 0, 0, 0));
}

#[test]
fn events_on_a_fresh_state_are_refused() {
    let mut state = State::new();
    assert_eq!(bpm_frame_encoded(&mut state, 0), Err(BpmError::OutOfRange));
    assert_eq!(bpm_frame_encoded(&mut state, 1), Err(BpmError::OutOfRange));
    assert_eq!(state.session_totals(), session(0, 0, 0, 0));
}

#[test]
fn skipped_frames_add_up_between_reports() {
    let mut state = state_with_tracks(3);
    let n = 7;
    let m = 4;
    for _ in 0..n {
        assert_eq!(bpm_frame_lagged(&mut state, 1), Ok(()));
    }
    for _ in 0..m {
        assert_eq!(bpm_frame_dropped(&mut state, 1), Ok(()));
    }
    assert_eq!(state.snapshot_track_deltas(1), Ok(track(11, 11, 0)));
    assert_eq!(state.snapshot_track_deltas(0), Ok(track(0, 0, 0)));
    assert_eq!(state.snapshot_session_deltas(), session(0, 7, 4, 0));
}

#[test]
fn skipped_frames_add_up_in_any_order() {
    let mut state = state_with_tracks(1);
    assert_eq!(bpm_frame_encoded(&mut state, 0), Ok(()));
    assert_eq!(state.snapshot_track_deltas(0), Ok(track(1, 0, 1)));
    let lagged = [true, false, false, true, true, false, true];
    for l in lagged {
        if l {
            assert_eq!(bpm_frame_lagged(&mut state, 0), Ok(()));
        } else {
            assert_eq!(bpm_frame_dropped(&mut state, 0), Ok(()));
        }
    }
    assert_eq!(state.snapshot_track_deltas(0), Ok(track(7, 7, 0)));
    assert_eq!(state.track_totals(0), Some(track(8, 7, 1)));
}

#[test]
fn session_deltas_are_consumed_by_a_read() {
    let mut state = state_with_tracks(2);
    for _ in 0..3 {
        bpm_frame_encoded(&mut state, 0).unwrap();
    }
    bpm_frame_encoded(&mut state, 1).unwrap();
    bpm_frame_dropped(&mut state, 1).unwrap();
    assert_eq!(state.snapshot_session_deltas(), session(3, 0, 1, 4));
    assert_eq!(state.snapshot_session_deltas(), session(0, 0, 0, 0));
    bpm_frame_lagged(&mut state, 0).unwrap();
    assert_eq!(state.snapshot_session_deltas(), session(0, 1, 0, 0));
    assert_eq!(state.session_totals(), session(3, 1, 1, 4));
}

#[test]
fn track_deltas_are_consumed_track_by_track() {
    let mut state = state_with_tracks(2);
    bpm_frame_encoded(&mut state, 0).unwrap();
    bpm_frame_encoded(&mut state, 1).unwrap();
    bpm_frame_lagged(&mut state, 1).unwrap();
    assert_eq!(state.snapshot_track_deltas(1), Ok(track(2, 1, 1)));
    assert_eq!(state.snapshot_track_deltas(1), Ok(track(0, 0, 0)));
    assert_eq!(state.snapshot_track_deltas(0), Ok(track(1, 0, 1)));
    assert_eq!(state.snapshot_track_deltas(0), Ok(track(0, 0, 0)));
    assert_eq!(state.snapshot_session_deltas(), session(1, 1, 0, 2));
    assert_eq!(state.track_totals(1), Some(track(2, 1, 1)));
}

#[test]
fn sixty_encodes_two_lagged() {
    let mut state = State::new();
    assert_eq!(state.get_track_index("h264_1080p_30fps".to_string()), Ok(0));
    for _ in 0..60 {
        assert_eq!(bpm_frame_encoded(&mut state, 0), Ok(()));
    }
    for _ in 0..2 {
        assert_eq!(bpm_frame_lagged(&mut state, 0), Ok(()));
    }
    assert_eq!(state.snapshot_session_deltas(), session(60, 2, 0, 60));
    assert_eq!(state.snapshot_session_deltas(), session(0, 0, 0, 0));
    assert_eq!(state.snapshot_track_deltas(0), Ok(track(62, 2, 60)));
}

#[test]
fn state_methods_count_like_the_free_functions() {
    let mut store = State::new();
    assert_eq!(store.track_count(), 0);
    assert_eq!(store.on_frame_encoded(0), Err(BpmError::OutOfRange));
    assert_eq!(store.get_track_index("a".to_string()), Ok(0));
    assert_eq!(store.get_track_index("b".to_string()), Ok(1));
    assert_eq!(store.track_count(), 2);
    assert_eq!(store.on_frame_encoded(0), Ok(()));
    assert_eq!(store.on_frame_encoded(1), Ok(()));
    assert_eq!(store.on_frame_lagged(1), Ok(()));
    assert_eq!(store.on_frame_dropped(0), Ok(()));
    assert_eq!(store.on_frame_dropped(2), Err(BpmError::OutOfRange));
    assert_eq!(store.on_frame_lagged(6), Err(BpmError::OutOfRange));
    assert_eq!(store.session_totals(), session(1, 1, 1, 2));
    assert_eq!(store.track_totals(0), Some(track(2, 1, 1)));
    assert_eq!(store.track_totals(1), Some(track(2, 1, 1)));
    assert_eq!(store.track_totals(2), None);
    assert_eq!(store.snapshot_session_deltas(), session(1, 1, 1, 2));
    assert_eq!(store.snapshot_track_deltas(0), Ok(track(2, 1, 1)));
    assert_eq!(store.snapshot_track_deltas(0), Ok(track(0, 0, 0)));
    assert_eq!(store.snapshot_track_deltas(2), Err(BpmError::OutOfRange));
    assert_eq!(store.get_track_index("c".to_string()), Ok(2));
    assert_eq!(store.track_totals(2), Some(track(0, 0, 0)));
    assert_eq!(store.snapshot_track_deltas(2), Ok(track(0, 0, 0)));
    assert_eq!(store.snapshot_track_deltas(1), Ok(track(2, 1, 1)));
}

#[test]
fn registering_a_track_leaves_the_counters_of_the_others() {
    let mut state = state_with_tracks(1);
    bpm_frame_encoded(&mut state, 0).unwrap();
    bpm_frame_lagged(&mut state, 0).unwrap();
    assert_eq!(state.get_track_index("late".to_string()), Ok(1));
    assert_eq!(state.track_totals(0), Some(track(2, 1, 1)));
    assert_eq!(state.track_totals(1), Some(track(0, 0, 0)));
    assert_eq!(state.session_totals(), session(1, 1, 0, 1));
    assert_eq!(state.snapshot_track_deltas(0), Ok(track(2, 1, 1)));
    assert_eq!(state.snapshot_track_deltas(1), Ok(track(0, 0, 0)));
}

#[test]
fn frame_events_add_up_between_reports() {
    let mut state = state_with_tracks(2);
    let events = [
        FrameEvent::Encoded,
        FrameEvent::Lagged,
        FrameEvent::Encoded,
        FrameEvent::Dropped,
        FrameEvent::Dropped,
        FrameEvent::Encoded,
        FrameEvent::Lagged,
        FrameEvent::Encoded,
    ];
    for e in events {
        assert_eq!(state.on_frame(1, e), Ok(()));
    }
    assert_eq!(state.on_frame(0, FrameEvent::Encoded), Ok(()));
    assert_eq!(state.on_frame(2, FrameEvent::Encoded), Err(BpmError::OutOfRange));
    assert_eq!(state.snapshot_track_deltas(1), Ok(track(8, 4, 4)));
    assert_eq!(state.snapshot_track_deltas(0), Ok(track(1, 0, 1)));
    assert_eq!(state.snapshot_session_deltas(), session(1, 2, 2, 5));
}

#[test]
fn events_can_be_recorded_in_either_order() {
    let mut one = state_with_tracks(2);
    let mut other = state_with_tracks(2);
    assert_eq!(one.on_frame(0, FrameEvent::Encoded), Ok(()));
    assert_eq!(one.on_frame(1, FrameEvent::Dropped), Ok(()));
    assert_eq!(other.on_frame(1, FrameEvent::Dropped), Ok(()));
    assert_eq!(other.on_frame(0, FrameEvent::Encoded), Ok(()));
    assert_eq!(one.session_totals(), other.session_totals());
    assert_eq!(one.session_totals(), session(1, 0, 1, 1));
    assert_eq!(one.track_totals(0), other.track_totals(0));
    assert_eq!(one.track_totals(1), other.track_totals(1));
    assert_eq!(one.track_totals(1), Some(track(1, 1, 0)));
}
