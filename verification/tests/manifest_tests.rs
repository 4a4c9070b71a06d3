use vzglyd_kernel::json::{JsonNumber, JsonValue};
use vzglyd_kernel::manifest::{
    parse_transition_kind, validate_package_relative_path, validate_params_schema,
    validate_sidecar_preopen, ArtAssetRef, AssetRef, DisplayConfig, ManifestAssets,
    ManifestCassetteArt, ManifestParamField, ManifestParamOption, ManifestParamType,
    ManifestParamsSchema, ManifestValidationError, SceneAssetRef, SlideManifest,
};
use vzglyd_kernel::slide::manifest as early;
use vzglyd_kernel::transition::TransitionKind;

const ENGINE_ABI: u32 = 1;

fn required_art() -> ManifestCassetteArt {
    ManifestCassetteArt {
        j_card: ArtAssetRef {
            path: "art/j-card.png".into(),
            label: None,
        },
        side_a_label: ArtAssetRef {
            path: "art/side-a.png".into(),
            label: None,
        },
        side_b_label: ArtAssetRef {
            path: "art/side-b.png".into(),
            label: None,
        },
    }
}

#[test]
fn mod_invalid_abi_version_is_rejected() {
    let manifest = SlideManifest {
        abi_version: Some(99),
        ..Default::default()
    };
    let error = manifest
        .validate(ENGINE_ABI)
        .expect_err("abi mismatch should fail");
    assert_eq!(
        error,
        ManifestValidationError::AbiVersion {
            found: 99,
            expected: ENGINE_ABI,
        }
    );
}

#[test]
fn mod_unknown_scene_space_is_rejected() {
    let manifest = SlideManifest {
        scene_space: Some("isometric".into()),
        ..Default::default()
    };
    let error = manifest
        .validate(ENGINE_ABI)
        .expect_err("unknown scene space should fail");
    assert_eq!(
        error,
        ManifestValidationError::UnknownSceneSpace("isometric".into())
    );
}

#[test]
fn mod_asset_path_traversal_is_rejected() {
    let manifest = SlideManifest {
        assets: Some(ManifestAssets {
            art: Some(required_art()),
            textures: vec![AssetRef {
                path: "../secret.png".into(),
                usage: Some("material".into()),
                slot: None,
                label: None,
                id: None,
            }],
            meshes: vec![],
            scenes: vec![],
            sounds: vec![],
        }),
        ..Default::default()
    };
    let error = manifest
        .validate(ENGINE_ABI)
        .expect_err("path traversal should fail");
    assert_eq!(
        error,
        ManifestValidationError::PathEscapesPackage("../secret.png".into())
    );
}

#[test]
fn cassette_art_is_required() {
    let manifest = SlideManifest {
        assets: Some(ManifestAssets {
            art: None,
            textures: vec![],
            meshes: vec![],
            scenes: vec![],
            sounds: vec![],
        }),
        ..Default::default()
    };
    let error = manifest
        .validate(ENGINE_ABI)
        .expect_err("missing cassette art should fail");
    assert_eq!(
        error,
        ManifestValidationError::InvalidCassetteArt("manifest.assets.art is required".into())
    );
}

#[test]
fn cassette_art_paths_are_validated() {
    let mut art = required_art();
    art.side_b_label.path = "../side-b.png".into();
    let manifest = SlideManifest {
        assets: Some(ManifestAssets {
            art: Some(art),
            textures: vec![],
            meshes: vec![],
            scenes: vec![],
            sounds: vec![],
        }),
        ..Default::default()
    };
    let error = manifest
        .validate(ENGINE_ABI)
        .expect_err("unsafe cassette art path should fail");
    assert_eq!(
        error,
        ManifestValidationError::PathEscapesPackage("../side-b.png".into())
    );
}

#[test]
fn mod_display_duration_out_of_bounds_is_rejected() {
    let manifest = SlideManifest {
        display: Some(DisplayConfig {
            duration_seconds: Some(301),
            transition_in: None,
            transition_out: None,
        }),
        ..Default::default()
    };
    let error = manifest
        .validate(ENGINE_ABI)
        .expect_err("duration should fail bounds check");
    assert_eq!(
        error,
        ManifestValidationError::DurationSecondsOutOfBounds(301)
    );
}

#[test]
fn mod_parse_transition_kind_valid() {
    assert_eq!(parse_transition_kind("crossfade"), TransitionKind::Crossfade);
    assert_eq!(parse_transition_kind("wipe_left"), TransitionKind::WipeLeft);
    assert_eq!(parse_transition_kind("wipe_down"), TransitionKind::WipeDown);
    assert_eq!(parse_transition_kind("dissolve"), TransitionKind::Dissolve);
    assert_eq!(parse_transition_kind("cut"), TransitionKind::Cut);
}

#[test]
fn mod_parse_transition_kind_unknown_returns_default() {
    assert_eq!(parse_transition_kind("mystery"), TransitionKind::Crossfade);
}

#[test]
fn manifest_invalid_abi_version_is_rejected() {
    let manifest = early::SlideManifest {
        abi_version: Some(99),
        ..Default::default()
    };
    let error = manifest
        .validate(ENGINE_ABI)
        .expect_err("abi mismatch should fail");
    assert_eq!(
        error,
        early::ManifestValidationError::AbiVersion {
            found: 99,
            expected: ENGINE_ABI,
        }
    );
}

#[test]
fn manifest_unknown_scene_space_is_rejected() {
    let manifest = early::SlideManifest {
        scene_space: Some("isometric".into()),
        ..Default::default()
    };
    let error = manifest
        .validate(ENGINE_ABI)
        .expect_err("unknown scene space should fail");
    assert_eq!(
        error,
        early::ManifestValidationError::UnknownSceneSpace("isometric".into())
    );
}

#[test]
fn manifest_asset_path_traversal_is_rejected() {
    let manifest = early::SlideManifest {
        assets: Some(early::ManifestAssets {
            textures: vec![AssetRef {
                path: "../secret.png".into(),
                usage: Some("material".into()),
                slot: None,
                label: None,
                id: None,
            }],
            meshes: vec![],
            scenes: vec![],
        }),
        ..Default::default()
    };
    let error = manifest
        .validate(ENGINE_ABI)
        .expect_err("path traversal should fail");
    assert_eq!(
        error,
        early::ManifestValidationError::PathEscapesPackage("../secret.png".into())
    );
}

#[test]
fn manifest_display_duration_out_of_bounds_is_rejected() {
    let manifest = early::SlideManifest {
        display: Some(DisplayConfig {
            duration_seconds: Some(301),
            transition_in: None,
            transition_out: None,
        }),
        ..Default::default()
    };
    let error = manifest
        .validate(ENGINE_ABI)
        .expect_err("duration should fail bounds check");
    assert_eq!(
        error,
        early::ManifestValidationError::DurationSecondsOutOfBounds(301)
    );
}

#[test]
fn manifest_parse_transition_kind_valid() {
    assert_eq!(early::parse_transition_kind("crossfade"), TransitionKind::Crossfade);
    assert_eq!(early::parse_transition_kind("wipe_left"), TransitionKind::WipeLeft);
    assert_eq!(early::parse_transition_kind("wipe_down"), TransitionKind::WipeDown);
    assert_eq!(early::parse_transition_kind("dissolve"), TransitionKind::Dissolve);
    assert_eq!(early::parse_transition_kind("cut"), TransitionKind::Cut);
}

#[test]
fn manifest_parse_transition_kind_unknown_returns_default() {
    assert_eq!(
        early::parse_transition_kind("mystery"),
        TransitionKind::Crossfade
    );
}

#[test]
fn valid_manifest_passes_and_reports_display() {
    let manifest = SlideManifest {
        abi_version: Some(ENGINE_ABI),
        scene_space: Some("world_3d".into()),
        assets: Some(ManifestAssets {
            art: Some(required_art()),
            textures: vec![],
            meshes: vec![],
            scenes: vec![SceneAssetRef {
                path: "scenes/room.glb".into(),
                label: None,
                id: Some("room".into()),
                entry_camera: None,
                compile_profile: None,
            }],
            sounds: vec![],
        }),
        display: Some(DisplayConfig {
            duration_seconds: Some(30),
            transition_in: Some("wipe_down".into()),
            transition_out: Some("bogus".into()),
        }),
        ..Default::default()
    };
    assert_eq!(manifest.validate(ENGINE_ABI), Ok(()));
    assert_eq!(manifest.display_duration_seconds(), Some(30));
    assert_eq!(manifest.transition_in_kind(), Some(TransitionKind::WipeDown));
    assert_eq!(manifest.transition_out_kind(), Some(TransitionKind::Crossfade));
    assert_eq!(manifest.scene_asset(Some("room")).map(|s| s.path.as_str()), Some("scenes/room.glb"));
    assert_eq!(manifest.scene_asset(None).map(|s| s.path.as_str()), Some("scenes/room.glb"));
    assert!(manifest.scene_asset(Some("hall")).is_none());
}

#[test]
fn duration_bounds_are_inclusive() {
    for (secs, ok) in [(0u32, false), (1, true), (300, true), (301, false)] {
        let manifest = SlideManifest {
            assets: Some(ManifestAssets {
                art: Some(required_art()),
                textures: vec![],
                meshes: vec![],
                scenes: vec![],
                sounds: vec![],
            }),
            display: Some(DisplayConfig {
                duration_seconds: Some(secs),
                transition_in: None,
                transition_out: None,
            }),
            ..Default::default()
        };
        assert_eq!(manifest.validate(ENGINE_ABI).is_ok(), ok, "duration {secs}");
    }
}

#[test]
fn package_relative_paths() {
    assert!(validate_package_relative_path("art/a.png").is_ok());
    assert_eq!(
        validate_package_relative_path("/etc/passwd"),
        Err(ManifestValidationError::PathEscapesPackage("/etc/passwd".into()))
    );
    assert_eq!(
        validate_package_relative_path("a/../../b"),
        Err(ManifestValidationError::PathEscapesPackage("a/../../b".into()))
    );
}

#[test]
fn sidecar_preopens_need_a_guest_path() {
    assert!(validate_sidecar_preopen("/data::/guest").is_ok());
    assert!(validate_sidecar_preopen("no-separator").is_err());
}

#[test]
fn params_schema_rejects_duplicate_keys() {
    let field = |key: &str| ManifestParamField {
        key: key.into(),
        kind: ManifestParamType::String,
        required: false,
        label: None,
        help: None,
        default: None,
        options: vec![],
    };
    let schema = ManifestParamsSchema {
        fields: vec![field("mode"), field("mode")],
    };
    assert!(matches!(
        validate_params_schema(&schema),
        Err(ManifestValidationError::InvalidParamsSchema(_))
    ));
    let schema = ManifestParamsSchema {
        fields: vec![ManifestParamField {
            options: vec![ManifestParamOption {
                value: JsonValue::String("light".into()),
                label: None,
            }],
            ..field("mode")
        }],
    };
    assert!(validate_params_schema(&schema).is_ok());
}

#[test]
fn validation_error_messages() {
    assert_eq!(
        ManifestValidationError::AbiVersion { found: 99, expected: 1 }.message(),
        "abi_version 99 does not match engine ABI 1"
    );
    assert_eq!(
        ManifestValidationError::UnknownSceneSpace("iso".into()).message(),
        "unknown scene_space 'iso'"
    );
    assert_eq!(
        ManifestValidationError::PathEscapesPackage("../x".into()).message(),
        "path '../x' must remain within the package directory"
    );
    assert_eq!(
        ManifestValidationError::DurationSecondsOutOfBounds(301).message(),
        "display duration 301s out of bounds [1, 300]s"
    );
    assert_eq!(
        ManifestValidationError::InvalidSidecarPreopen("x".into()).message(),
        "invalid sidecar preopen 'x'"
    );
    assert_eq!(
        ManifestValidationError::InvalidCassetteArt("manifest.assets.art is required".into()).message(),
        "manifest.assets.art is required"
    );
    assert_eq!(
        early::ManifestValidationError::DurationSecondsOutOfBounds(0).message(),
        "display duration 0s out of bounds [1, 300]s"
    );
}

#[test]
fn params_schema_compares_signed_zero_options() {
    let float = |t: &str| JsonValue::Number(JsonNumber::Float(t.to_string()));
    let option = |v: JsonValue| ManifestParamOption { value: v, label: None };
    let field = |options: Vec<ManifestParamOption>, default: Option<JsonValue>| ManifestParamField {
        key: "gain".into(),
        kind: ManifestParamType::Number,
        required: false,
        label: None,
        help: None,
        default,
        options,
    };
    // 0.0 and -0.0 write out differently, so they are not duplicate options.
    let schema = ManifestParamsSchema {
        fields: vec![field(vec![option(float("0.0")), option(float("-0.0"))], None)],
    };
    assert!(validate_params_schema(&schema).is_ok());
    // A default of -0.0 equals the option 0.0.
    let schema = ManifestParamsSchema {
        fields: vec![field(vec![option(float("0.0"))], Some(float("-0.0")))],
    };
    assert!(validate_params_schema(&schema).is_ok());
    let schema = ManifestParamsSchema {
        fields: vec![field(vec![option(float("0.0"))], Some(float("0.5")))],
    };
    assert!(validate_params_schema(&schema).is_err());
    let schema = ManifestParamsSchema {
        fields: vec![field(vec![option(float("1.5")), option(float("1.5"))], None)],
    };
    assert!(validate_params_schema(&schema).is_err());
}
