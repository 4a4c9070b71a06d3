use vzglyd_kernel::json::JsonValue;
use vzglyd_kernel::schedule::{
    build_schedule_from_playlist, has_enabled_slide, join_slide_path, resolve_data_path, resolve_duration_seconds,
    resolve_schedule_entries, validate_data_path, validate_playlist, PlaylistContent,
    PlaylistDefaults, PlaylistEntry, ScreensaverConfig,
};
use vzglyd_kernel::transition::TransitionKind;

fn entry(path: &str) -> PlaylistEntry {
    PlaylistEntry {
        path: path.into(),
        ..Default::default()
    }
}

#[test]
fn build_schedule_filters_disabled() {
    let playlist = PlaylistContent {
        defaults: PlaylistDefaults::default(),
        slides: vec![
            PlaylistEntry {
                path: "a.vzglyd".into(),
                data_path: None,
                enabled: Some(true),
                duration_seconds: None,
                transition_in: None,
                transition_out: None,
                params: None,
            },
            PlaylistEntry {
                path: "b.vzglyd".into(),
                data_path: None,
                enabled: Some(false),
                duration_seconds: None,
                transition_in: None,
                transition_out: None,
                params: None,
            },
            PlaylistEntry {
                path: "c.vzglyd".into(),
                data_path: None,
                enabled: None, // Default: enabled
                duration_seconds: None,
                transition_in: None,
                transition_out: None,
                params: None,
            },
        ],
    };

    let schedule = build_schedule_from_playlist(&playlist, "slides/");
    assert_eq!(schedule.len(), 2);
    assert_eq!(schedule[0], "slides/a.vzglyd");
    assert_eq!(schedule[1], "slides/c.vzglyd");
}

#[test]
fn resolve_schedule_keeps_overrides_and_params() {
    let playlist = PlaylistContent {
        defaults: PlaylistDefaults {
            duration_seconds: Some(10),
            transition_in: Some("crossfade".into()),
            transition_out: Some("wipe_left".into()),
            screensaver: None,
        },
        slides: vec![PlaylistEntry {
            path: "clock.vzglyd".into(),
            data_path: Some("data/weather.out.json".into()),
            enabled: Some(true),
            duration_seconds: Some(20),
            transition_in: None,
            transition_out: Some("cut".into()),
            params: Some(JsonValue::Object(vec![(
                "mode".into(),
                JsonValue::String("demo".into()),
            )])),
        }],
    };

    let resolved = resolve_schedule_entries(&playlist, "slides");
    assert_eq!(resolved.len(), 1);
    assert_eq!(resolved[0].path, "slides/clock.vzglyd");
    assert_eq!(
        resolved[0].data_path.as_deref(),
        Some("slides/data/weather.out.json")
    );
    assert_eq!(resolved[0].duration_seconds, Some(20));
    assert_eq!(resolved[0].transition_in, Some(TransitionKind::Crossfade));
    assert_eq!(resolved[0].transition_out, Some(TransitionKind::Cut));
    match &resolved[0].params {
        Some(JsonValue::Object(members)) => {
            assert_eq!(members.len(), 1);
            assert_eq!(members[0].0, "mode");
            assert!(matches!(&members[0].1, JsonValue::String(s) if s == "demo"));
        }
        other => panic!("unexpected params {other:?}"),
    }
}

#[test]
fn resolve_duration_priority() {
    let defaults = PlaylistDefaults {
        duration_seconds: Some(10),
        transition_in: None,
        transition_out: None,
        screensaver: None,
    };

    // Entry override takes priority
    let e = PlaylistEntry {
        duration_seconds: Some(20),
        ..Default::default()
    };
    assert_eq!(resolve_duration_seconds(&e, &defaults), Some(20));

    // Falls back to default
    let e = PlaylistEntry {
        duration_seconds: None,
        ..Default::default()
    };
    assert_eq!(resolve_duration_seconds(&e, &defaults), Some(10));

    // Falls back to the engine default (no value here)
    let defaults = PlaylistDefaults::default();
    assert_eq!(resolve_duration_seconds(&e, &defaults), None);
}

#[test]
fn resolve_schedule_preserves_absolute_data_path() {
    let playlist = PlaylistContent {
        defaults: PlaylistDefaults::default(),
        slides: vec![PlaylistEntry {
            path: "clock.vzglyd".into(),
            data_path: Some("/tmp/weather.out.json".into()),
            enabled: Some(true),
            duration_seconds: None,
            transition_in: None,
            transition_out: None,
            params: None,
        }],
    };

    let resolved = resolve_schedule_entries(&playlist, "slides");
    assert_eq!(
        resolved[0].data_path.as_deref(),
        Some("/tmp/weather.out.json")
    );
}

#[test]
fn parse_playlist_rejects_empty_data_path() {
    let playlist = PlaylistContent {
        defaults: PlaylistDefaults::default(),
        slides: vec![PlaylistEntry {
            data_path: Some("   ".into()),
            ..entry("clock.vzglyd")
        }],
    };
    let error = validate_playlist(&playlist).expect_err("empty data_path should fail");
    assert!(error.contains("slides[0].data_path must be a non-empty string"));
}

#[test]
fn parse_playlist_rejects_relative_data_path_escape() {
    let playlist = PlaylistContent {
        defaults: PlaylistDefaults::default(),
        slides: vec![PlaylistEntry {
            data_path: Some("../weather.out.json".into()),
            ..entry("clock.vzglyd")
        }],
    };
    let error = validate_playlist(&playlist).expect_err("escaped data_path should fail");
    assert!(error.contains("slides[0].data_path must not contain . or .. segments"));
}

#[test]
fn parse_playlist_accepts_absolute_data_path() {
    let playlist = PlaylistContent {
        defaults: PlaylistDefaults::default(),
        slides: vec![PlaylistEntry {
            data_path: Some("/tmp/weather.out.json".into()),
            ..entry("clock.vzglyd")
        }],
    };
    assert!(validate_playlist(&playlist).is_ok());
    assert_eq!(
        playlist.slides[0].data_path.as_deref(),
        Some("/tmp/weather.out.json")
    );
}

#[test]
fn screensaver_defaults() {
    let config = ScreensaverConfig::default();
    assert_eq!(config.timeout_seconds, 300);
    assert_eq!(config.duration_seconds, 60);
}

#[test]
fn data_path_rules() {
    assert!(validate_data_path("data/x.json").is_ok());
    assert!(validate_data_path("/abs/./x.json").is_ok());
    assert_eq!(validate_data_path("a\\b"), Err("must use forward slashes"));
    assert_eq!(validate_data_path("  "), Err("must be a non-empty string"));
    assert_eq!(validate_data_path("./x"), Err("must not contain . or .. segments"));
    assert_eq!(resolve_data_path("slides", "/abs.json"), "/abs.json");
    assert_eq!(resolve_data_path("slides", "d.json"), "slides/d.json");
    assert_eq!(join_slide_path("slides/", "a.vzglyd"), "slides/a.vzglyd");
    assert_eq!(join_slide_path("slides", "a.vzglyd"), "slides/a.vzglyd");
    assert_eq!(join_slide_path("", "a.vzglyd"), "/a.vzglyd");
}

#[test]
fn later_entry_error_is_reported_with_its_index() {
    let playlist = PlaylistContent {
        defaults: PlaylistDefaults::default(),
        slides: vec![
            entry("a.vzglyd"),
            PlaylistEntry {
                data_path: Some("x/../y".into()),
                ..entry("b.vzglyd")
            },
        ],
    };
    let error = validate_playlist(&playlist).unwrap_err();
    assert!(error.starts_with("slides[1].data_path"), "{error}");
}

#[test]
fn has_enabled_slide_checks_every_entry() {
    let mut off = entry("a.vzglyd");
    off.enabled = Some(false);
    let empty = PlaylistContent { defaults: PlaylistDefaults::default(), slides: vec![] };
    assert!(!has_enabled_slide(&empty));
    let all_off = PlaylistContent { defaults: PlaylistDefaults::default(), slides: vec![off.clone()] };
    assert!(!has_enabled_slide(&all_off));
    let mut on = entry("b.vzglyd");
    on.enabled = Some(true);
    let mixed = PlaylistContent { defaults: PlaylistDefaults::default(), slides: vec![off.clone(), on] };
    assert!(has_enabled_slide(&mixed));
    let absent = PlaylistContent { defaults: PlaylistDefaults::default(), slides: vec![off, entry("c.vzglyd")] };
    assert!(has_enabled_slide(&absent));
}
