use vzglyd_kernel::info::{
    empty_playlist_info, invalid_playlist_info, missing_playlist_info, InfoReason, InfoState,
    PlaylistProbe,
};

#[test]
fn info_state_starts_inactive() {
    let state = InfoState::new();
    assert!(!state.is_active());
}

#[test]
fn show_sets_reason() {
    let mut state = InfoState::new();
    state.show(missing_playlist_info("/slides", "http://localhost:8080"));
    assert!(state.is_active());
}

#[test]
fn clear_resets() {
    let mut state = InfoState::new();
    state.show(missing_playlist_info("/slides", "http://localhost:8080"));
    state.clear();
    assert!(!state.is_active());
}

#[test]
fn alert_does_not_auto_recover() {
    let mut state = InfoState::new();
    state.show(InfoReason::Alert {
        title: "Network error".into(),
        lines: vec!["API unavailable".into()],
    });
    // An alert never looks at the playlist, whatever the host would find there.
    assert!(!state.awaits_recovery());
    assert!(!state.apply_recovery_probe(PlaylistProbe::Missing));
    assert!(!state.apply_recovery_probe(PlaylistProbe::Parsed { has_enabled: true }));
    assert!(state.is_active());
}

#[test]
fn missing_playlist_primary_message() {
    let reason = missing_playlist_info("/my/slides", "http://0.0.0.0:8080");
    assert_eq!(reason.primary_message(), "No playlist.json found in '/my/slides'");
}

#[test]
fn missing_playlist_recovers_once_a_slide_is_enabled() {
    let mut state = InfoState::new();
    state.show(missing_playlist_info("/slides", "http://localhost:8080"));
    assert!(state.awaits_recovery());
    assert!(!state.apply_recovery_probe(PlaylistProbe::Missing));
    assert!(state.is_active());
    assert!(state.apply_recovery_probe(PlaylistProbe::Parsed { has_enabled: true }));
    assert!(!state.is_active());
}

#[test]
fn empty_playlist_replaces_missing_reason() {
    let mut state = InfoState::new();
    state.show(missing_playlist_info("/slides", "http://localhost:8080"));
    assert!(!state.apply_recovery_probe(PlaylistProbe::Parsed { has_enabled: false }));
    match &state.reason {
        Some(InfoReason::EmptyPlaylist { management_url }) => {
            assert_eq!(management_url, "http://localhost:8080")
        }
        other => panic!("unexpected reason {other:?}"),
    }
}

#[test]
fn invalid_playlist_reason_drops_json_prefix() {
    let mut state = InfoState::new();
    state.show(empty_playlist_info("http://localhost:8080"));
    assert!(!state.apply_recovery_probe(PlaylistProbe::Invalid {
        error: "invalid playlist JSON: expected value at line 1".into(),
    }));
    match &state.reason {
        Some(InfoReason::InvalidPlaylist { error, management_url }) => {
            assert_eq!(error, "expected value at line 1");
            assert_eq!(management_url, "http://localhost:8080");
        }
        other => panic!("unexpected reason {other:?}"),
    }
}

#[test]
fn invalid_playlist_info_keeps_message() {
    let reason = invalid_playlist_info("bad json", "http://localhost:8080");
    match reason {
        InfoReason::InvalidPlaylist { error, .. } => assert_eq!(error, "bad json"),
        other => panic!("unexpected reason {other:?}"),
    }
}
