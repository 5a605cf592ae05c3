use bpm_sei::{bpm_get_track_index, resolve_track, BpmError, State, MAX_TRACKS};

fn names() -> Vec<&'static str> {
    vec![
        "h264_1080p_30fps",
        "h264_720p_30fps",
        "h264_480p_30fps",
        "hevc_1080p_60fps",
        "av1_2160p_60fps",
        "h264_360p_15fps",
    ]
}

#[test]
fn max_tracks_is_six() {
    assert_eq!(MAX_TRACKS, 6);
}

#[test]
fn first_fingerprint_gets_index_zero() {
    let mut registry = State::new();
    assert_eq!(registry.track_count(), 0);
    assert_eq!(registry.fingerprint(0), None);
    assert_eq!(registry.get_track_index("h264_1080p_30fps".to_string()), Ok(0));
    assert_eq!(registry.track_count(), 1);
}

#[test]
fn same_fingerprint_same_index() {
    let mut registry = State::new();
    assert_eq!(registry.get_track_index("a".to_string()), Ok(0));
    assert_eq!(registry.get_track_index("b".to_string()), Ok(1));
    assert_eq!(registry.get_track_index("c".to_string()), Ok(2));
    assert_eq!(registry.get_track_index("a".to_string()), Ok(0));
    assert_eq!(registry.get_track_index("c".to_string()), Ok(2));
    assert_eq!(registry.get_track_index("b".to_string()), Ok(1));
    assert_eq!(registry.track_count(), 3);
}

#[test]
fn distinct_fingerprints_distinct_indices() {
    let mut registry = State::new();
    let mut seen: Vec<usize> = Vec::new();
    for name in names() {
        let index = registry.get_track_index(name.to_string()).unwrap();
        assert!(!seen.contains(&index));
        seen.push(index);
    }
    assert_eq!(seen, vec![0, 1, 2, 3, 4, 5]);
}

#[test]
fn seventh_distinct_fingerprint_is_refused() {
    let mut registry = State::new();
    for (i, name) in names().into_iter().enumerate() {
        assert_eq!(registry.get_track_index(name.to_string()), Ok(i));
    }
    assert_eq!(
        registry.get_track_index("vp9_1080p_30fps".to_string()),
        Err(BpmError::CapacityExceeded)
    );
    assert_eq!(registry.track_count(), 6);
    assert_eq!(registry.lookup(&"vp9_1080p_30fps".to_string()), None);
}

#[test]
fn full_registry_still_resolves_known_fingerprints() {
    let mut registry = State::new();
    for name in names() {
        registry.get_track_index(name.to_string()).unwrap();
    }
    assert_eq!(registry.get_track_index("x".to_string()), Err(BpmError::CapacityExceeded));
    for (i, name) in names().into_iter().enumerate() {
        assert_eq!(registry.get_track_index(name.to_string()), Ok(i));
    }
}

#[test]
fn lookup_does_not_register() {
    let mut registry = State::new();
    assert_eq!(registry.lookup(&"a".to_string()), None);
    assert_eq!(registry.track_count(), 0);
    registry.get_track_index("a".to_string()).unwrap();
    registry.get_track_index("b".to_string()).unwrap();
    assert_eq!(registry.lookup(&"b".to_string()), Some(1));
    assert_eq!(registry.lookup(&"a".to_string()), Some(0));
}

#[test]
fn fingerprint_by_index() {
    let mut registry = State::new();
    registry.get_track_index("a".to_string()).unwrap();
    registry.get_track_index("b".to_string()).unwrap();
    assert_eq!(registry.fingerprint(0), Some(&"a".to_string()));
    assert_eq!(registry.fingerprint(1), Some(&"b".to_string()));
    assert_eq!(registry.fingerprint(2), None);
}

#[test]
fn empty_fingerprint_is_a_fingerprint_like_any_other() {
    let mut registry = State::new();
    assert_eq!(registry.get_track_index(String::new()), Ok(0));
    assert_eq!(registry.get_track_index("a".to_string()), Ok(1));
    assert_eq!(registry.get_track_index(String::new()), Ok(0));
}

#[test]
fn state_registers_tracks_with_zeroed_counters() {
    let mut state = State::new();
    assert_eq!(state.track_count(), 0);
    assert_eq!(state.track_totals(0), None);
    assert_eq!(state.get_track_index("h264_1080p_30fps".to_string()), Ok(0));
    assert_eq!(state.get_track_index("h264_720p_30fps".to_string()), Ok(1));
    assert_eq!(state.get_track_index("h264_1080p_30fps".to_string()), Ok(0));
    assert_eq!(state.track_count(), 2);
    let zero = bpm_sei::TrackCounters { input: 0, skipped: 0, output: 0 };
    assert_eq!(state.track_totals(0), Some(zero));
    assert_eq!(state.track_totals(1), Some(zero));
    assert_eq!(state.track_totals(2), None);
    assert_eq!(state.fingerprint(1), Some(&"h264_720p_30fps".to_string()));
    assert_eq!(state.fingerprint(2), None);
}

#[test]
fn state_refuses_a_seventh_track_and_stays_as_it_was() {
    let mut state = State::new();
    for (i, name) in names().into_iter().enumerate() {
        assert_eq!(state.get_track_index(name.to_string()), Ok(i));
    }
    assert_eq!(state.get_track_index("vp9".to_string()), Err(BpmError::CapacityExceeded));
    assert_eq!(state.track_count(), 6);
    assert_eq!(state.track_totals(6), None);
    assert_eq!(state.get_track_index("h264_360p_15fps".to_string()), Ok(5));
}

#[test]
fn default_state_is_fresh() {
    let state = State::default();
    assert_eq!(state.track_count(), 0);
    assert_eq!(
        state.session_totals(),
        bpm_sei::SessionCounters { rendered: 0, lagged: 0, dropped: 0, output: 0 }
    );
}

#[test]
fn resolve_track_takes_utf8_bytes() {
    let mut state = State::new();
    assert_eq!(resolve_track(&mut state, Some(b"h264_1080p_30fps".as_slice())), Ok(0));
    assert_eq!(resolve_track(&mut state, Some("h265_720p_25fps".as_bytes())), Ok(1));
    assert_eq!(resolve_track(&mut state, Some(b"h264_1080p_30fps".as_slice())), Ok(0));
    assert_eq!(state.fingerprint(0), Some(&"h264_1080p_30fps".to_string()));
}

#[test]
fn resolve_track_accepts_text_beyond_ascii() {
    let mut state = State::new();
    let name = "vidéo_1080p_\u{1F3A5}";
    assert_eq!(resolve_track(&mut state, Some(name.as_bytes())), Ok(0));
    assert_eq!(state.fingerprint(0), Some(&name.to_string()));
    assert_eq!(state.get_track_index(name.to_string()), Ok(0));
}

#[test]
fn resolve_track_refuses_invalid_utf8() {
    let mut state = State::new();
    let bad: [u8; 4] = [0x68, 0xff, 0xfe, 0x34];
    assert_eq!(resolve_track(&mut state, Some(bad.as_slice())), Err(BpmError::InvalidEncoding));
    let truncated: [u8; 2] = [0x61, 0xc3];
    assert_eq!(
        resolve_track(&mut state, Some(truncated.as_slice())),
        Err(BpmError::InvalidEncoding)
    );
    let overlong: [u8; 2] = [0xc0, 0xaf];
    assert_eq!(
        resolve_track(&mut state, Some(overlong.as_slice())),
        Err(BpmError::InvalidEncoding)
    );
    assert_eq!(state.track_count(), 0);
}

#[test]
fn resolve_track_refuses_absent_text() {
    let mut state = State::new();
    assert_eq!(resolve_track(&mut state, None), Err(BpmError::InvalidEncoding));
    assert_eq!(state.track_count(), 0);
}

#[test]
fn resolve_track_reports_capacity() {
    let mut state = State::new();
    for (i, name) in names().into_iter().enumerate() {
        assert_eq!(resolve_track(&mut state, Some(name.as_bytes())), Ok(i));
    }
    assert_eq!(resolve_track(&mut state, Some(b"one_more".as_slice())), Err(BpmError::CapacityExceeded));
}

#[test]
fn track_index_or_sentinel() {
    let mut state = State::new();
    assert_eq!(bpm_get_track_index(&mut state, Some(b"h264_1080p_30fps".as_slice())), 0);
    assert_eq!(bpm_get_track_index(&mut state, Some(b"h264_720p_30fps".as_slice())), 1);
    assert_eq!(bpm_get_track_index(&mut state, Some(b"h264_1080p_30fps".as_slice())), 0);
    assert_eq!(bpm_get_track_index(&mut state, None), -1);
    let bad: [u8; 1] = [0x80];
    assert_eq!(bpm_get_track_index(&mut state, Some(bad.as_slice())), -1);
    for name in ["c", "d", "e", "f"] {
        assert!(bpm_get_track_index(&mut state, Some(name.as_bytes())) >= 2);
    }
    assert_eq!(bpm_get_track_index(&mut state, Some(b"g".as_slice())), -1);
    assert_eq!(state.track_count(), 6);
}

#[test]
fn a_new_fingerprint_gets_the_number_of_distinct_ones_seen_before() {
    let mut registry = State::new();
    let calls = ["a", "b", "a", "c", "b", "d", "a", "e", "e", "f"];
    let expected = [0, 1, 0, 2, 1, 3, 0, 4, 4, 5];
    for (call, index) in calls.iter().zip(expected) {
        assert_eq!(registry.get_track_index(call.to_string()), Ok(index));
    }
    assert_eq!(registry.get_track_index("g".to_string()), Err(BpmError::CapacityExceeded));
    assert_eq!(registry.get_track_index("h".to_string()), Err(BpmError::CapacityExceeded));
    assert_eq!(registry.get_track_index("g".to_string()), Err(BpmError::CapacityExceeded));
    assert_eq!(registry.get_track_index("c".to_string()), Ok(2));
}
