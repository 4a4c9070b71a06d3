use vzglyd_kernel::hydration::{
    not_an_option_message, option_issue_values, param_issues, resolve_entry, JsonKind, ParamIssue,
};
use vzglyd_kernel::json::{JsonNumber, JsonValue};
use vzglyd_kernel::manifest::{
    DisplayConfig, ManifestParamField, ManifestParamOption, ManifestParamType,
    ManifestParamsSchema, SlideManifest,
};
use vzglyd_kernel::schedule::{PlaylistDefaults, PlaylistEntry};
use vzglyd_kernel::transition::TransitionKind;

fn entry_with_path(path: &str) -> PlaylistEntry {
    PlaylistEntry {
        path: path.into(),
        ..Default::default()
    }
}

fn defaults_with_duration(secs: u32) -> PlaylistDefaults {
    PlaylistDefaults {
        duration_seconds: Some(secs),
        ..Default::default()
    }
}

fn object(members: Vec<(&str, JsonValue)>) -> JsonValue {
    JsonValue::Object(members.into_iter().map(|(k, v)| (k.to_string(), v)).collect())
}

fn field(key: &str, kind: ManifestParamType, required: bool) -> ManifestParamField {
    ManifestParamField {
        key: key.into(),
        kind,
        required,
        label: None,
        help: None,
        default: None,
        options: vec![],
    }
}

#[test]
fn hydrate_entry_resolves_duration_from_entry() {
    let entry = PlaylistEntry {
        path: "test.vzglyd".into(),
        duration_seconds: Some(15),
        ..Default::default()
    };
    let result = resolve_entry(&entry, None, &PlaylistDefaults::default());
    assert_eq!(result.duration_seconds, Some(15));
}

#[test]
fn hydrate_entry_falls_through_to_defaults() {
    let entry = entry_with_path("test.vzglyd");
    let defaults = defaults_with_duration(12);
    let result = resolve_entry(&entry, None, &defaults);
    assert_eq!(result.duration_seconds, Some(12));
}

#[test]
fn hydrate_entry_falls_through_to_manifest() {
    let entry = entry_with_path("test.vzglyd");
    let manifest = SlideManifest {
        display: Some(DisplayConfig {
            duration_seconds: Some(20),
            ..Default::default()
        }),
        ..Default::default()
    };
    let result = resolve_entry(&entry, Some(&manifest), &PlaylistDefaults::default());
    assert_eq!(result.duration_seconds, Some(20));
}

#[test]
fn hydrate_entry_falls_through_to_engine_default() {
    let entry = entry_with_path("test.vzglyd");
    let result = resolve_entry(&entry, None, &PlaylistDefaults::default());
    // No duration anywhere: the engine default applies.
    assert_eq!(result.duration_seconds, None);
}

#[test]
fn validate_params_no_schema_always_ok() {
    let params = object(vec![("anything", JsonValue::String("goes".into()))]);
    let errors = param_issues(Some(&params), None);
    assert!(errors.is_empty());
}

#[test]
fn validate_params_missing_required_field() {
    let schema = ManifestParamsSchema {
        fields: vec![field("api_key", ManifestParamType::String, true)],
    };
    let errors = param_issues(None, Some(&schema));
    assert_eq!(errors.len(), 1);
    assert!(errors[0].message().unwrap().contains("api_key"));
    assert_eq!(
        errors[0].message().unwrap(),
        "required param 'api_key' is missing"
    );
}

#[test]
fn validate_params_wrong_type() {
    let schema = ManifestParamsSchema {
        fields: vec![field("count", ManifestParamType::Integer, false)],
    };
    let params = object(vec![("count", JsonValue::String("not_a_number".into()))]);
    let errors = param_issues(Some(&params), Some(&schema));
    assert_eq!(errors.len(), 1);
    assert!(errors[0].message().unwrap().contains("count"));
    assert_eq!(
        errors[0].message().unwrap(),
        "param 'count' expected type 'integer' but got string"
    );
}

#[test]
fn validate_params_invalid_option_value() {
    let schema = ManifestParamsSchema {
        fields: vec![ManifestParamField {
            options: vec![
                ManifestParamOption {
                    value: JsonValue::String("light".into()),
                    label: None,
                },
                ManifestParamOption {
                    value: JsonValue::String("dark".into()),
                    label: None,
                },
            ],
            ..field("mode", ManifestParamType::String, false)
        }],
    };
    let params = object(vec![("mode", JsonValue::String("unknown".into()))]);
    let errors = param_issues(Some(&params), Some(&schema));
    assert_eq!(errors.len(), 1);
    match &errors[0] {
        ParamIssue::NotAnOption { key, entry, field } => {
            assert!(key.contains("mode"));
            assert_eq!((*entry, *field), (0, 0));
        }
        other => panic!("unexpected issue {other:?}"),
    }
    assert!(errors[0].message().is_none());
}

#[test]
fn validate_params_valid_passes() {
    let schema = ManifestParamsSchema {
        fields: vec![field("timezone", ManifestParamType::String, true)],
    };
    let params = object(vec![("timezone", JsonValue::String("UTC".into()))]);
    let errors = param_issues(Some(&params), Some(&schema));
    assert!(errors.is_empty());
}

#[test]
fn null_counts_as_missing_and_unknown_keys_pass() {
    let schema = ManifestParamsSchema {
        fields: vec![
            field("a", ManifestParamType::Number, true),
            field("b", ManifestParamType::Number, false),
        ],
    };
    let params = object(vec![
        ("a", JsonValue::Null),
        ("b", JsonValue::Number(JsonNumber::Float("1.5".into()))),
        ("zzz", JsonValue::Bool(true)),
    ]);
    let errors = param_issues(Some(&params), Some(&schema));
    assert_eq!(errors.len(), 2);
    assert_eq!(errors[0].message().unwrap(), "required param 'a' is missing");
    // "a" is null: required, and also the wrong type for a number.
    assert!(matches!(&errors[1], ParamIssue::WrongType { key, got: JsonKind::Null, .. } if key == "a"));
    assert_eq!(JsonKind::of(&JsonValue::Number(JsonNumber::NegInt(-3))).name(), "integer");
    assert_eq!(JsonKind::of(&JsonValue::Array(vec![])).name(), "array");
}

#[test]
fn transitions_resolve_first_present_name() {
    let entry = PlaylistEntry {
        transition_in: Some("bogus".into()),
        ..entry_with_path("a.vzglyd")
    };
    let defaults = PlaylistDefaults {
        transition_in: Some("cut".into()),
        transition_out: Some("wipe_left".into()),
        ..Default::default()
    };
    let manifest = SlideManifest {
        display: Some(DisplayConfig {
            transition_out: Some("dissolve".into()),
            ..Default::default()
        }),
        ..Default::default()
    };
    let r = resolve_entry(&entry, Some(&manifest), &defaults);
    assert_eq!(r.transition_in, Some(TransitionKind::Crossfade));
    assert_eq!(r.transition_out, Some(TransitionKind::WipeLeft));
    let r = resolve_entry(&entry_with_path("a"), Some(&manifest), &PlaylistDefaults::default());
    assert_eq!(r.transition_in, None);
    assert_eq!(r.transition_out, Some(TransitionKind::Dissolve));
}

#[test]
fn option_message_lists_allowed_values() {
    let allowed = vec!["\"light\"".to_string(), "\"dark\"".to_string()];
    assert_eq!(
        not_an_option_message("mode", "\"unknown\"", &allowed),
        "param 'mode' value \"unknown\" is not one of [\"light\", \"dark\"]"
    );
    assert_eq!(
        not_an_option_message("n", "3", &vec![]),
        "param 'n' value 3 is not one of []"
    );
}

#[test]
fn option_issue_reports_value_and_options() {
    let schema = ManifestParamsSchema {
        fields: vec![
            field("size", ManifestParamType::Integer, false),
            ManifestParamField {
                options: vec![
                    ManifestParamOption { value: JsonValue::String("light".into()), label: None },
                    ManifestParamOption { value: JsonValue::String("dark".into()), label: None },
                ],
                ..field("mode", ManifestParamType::String, false)
            },
        ],
    };
    let params = object(vec![
        ("size", JsonValue::Number(JsonNumber::PosInt(3))),
        ("mode", JsonValue::String("dim".into())),
    ]);
    let issues = param_issues(Some(&params), Some(&schema));
    assert_eq!(issues.len(), 1);
    let (value, options) = option_issue_values(&issues[0], Some(&params), Some(&schema));
    assert!(matches!(value, Some(JsonValue::String(ref s)) if s == "dim"));
    assert_eq!(options.len(), 2);
    assert!(matches!(&options[0], JsonValue::String(s) if s == "light"));
    assert!(matches!(&options[1], JsonValue::String(s) if s == "dark"));

    let missing = ParamIssue::Missing { key: "mode".into() };
    let (value, options) = option_issue_values(&missing, Some(&params), Some(&schema));
    assert!(value.is_none());
    assert!(options.is_empty());
}
