use vzglyd_kernel::glb::{
    anchor_label, camera_label, check_primitive_mode, check_scene_extension, clip_name,
    extras_context, flatten_mesh_nodes, format_error, judge_channel, material_class_hint,
    choose_glb_scene, node_display_name, open_glb_scene, plan_node, read_extras, scene_identity, scene_light_label,
    scene_mesh_label, sequential_indices, stable_anchor_id, stable_scene_camera_id,
    stable_scene_light_id, stable_scene_mesh_id, AnimationPath, ChannelFacts, ChannelOutputs,
    ChannelProperty, ExtraWarning, ExtrasOwner, GlbError, GlbOutline, GlbProblem, ImportedExtras,
    IndexedMesh, Interpolation, LightFacts, NodeFacts, NodeWarning, PrimitiveMode,
    SceneAssetRef,
};
use vzglyd_kernel::json::JsonValue;

#[test]
fn glb_error_messages() {
    assert_eq!(
        GlbError::ReadError("a.glb".into(), "gone".into()).message(),
        "failed to read GLB file 'a.glb': gone"
    );
    assert_eq!(
        GlbError::ParseError("a.glb".into(), "bad".into()).message(),
        "failed to parse GLB 'a.glb': bad"
    );
    assert_eq!(
        format_error(GlbProblem::MissingBlob, "a.glb").message(),
        "GLB format error: GLB 'a.glb' is missing its binary buffer chunk"
    );
    assert_eq!(
        check_primitive_mode(PrimitiveMode::LineStrip, "a.glb").unwrap_err().message(),
        "unsupported GLB feature: GLB 'a.glb' uses primitive mode LineStrip; only triangle meshes are supported"
    );
    assert!(check_primitive_mode(PrimitiveMode::Triangles, "a.glb").is_ok());
}

#[test]
fn scene_assets_must_be_glb() {
    assert!(check_scene_extension(Some("glb"), "s/a.glb").is_ok());
    let err = check_scene_extension(Some("gltf"), "s/a.gltf").unwrap_err();
    assert_eq!(
        err.message(),
        "GLB format error: unsupported scene format for 's/a.gltf': only .glb scene assets are supported"
    );
    assert!(check_scene_extension(None, "s/a").is_err());
}

#[test]
fn scene_identity_falls_back_in_order() {
    let id = scene_identity(None, Some("Hall"), Some("hall_file"));
    assert_eq!(id.id, "Hall");
    assert_eq!(id.label.as_deref(), Some("Hall"));
    assert_eq!(id.entry_camera, None);
    assert_eq!(id.compile_profile.as_deref(), Some("default_world"));

    let id = scene_identity(None, None, None);
    assert_eq!(id.id, "scene");
    assert_eq!(id.label, None);

    let mut selector = SceneAssetRef::new("scenes/hall.glb".into());
    assert!(selector.id.is_none());
    selector.id = Some("main".into());
    selector.entry_camera = Some("door".into());
    selector.compile_profile = Some("fast".into());
    let id = scene_identity(Some(&selector), Some("Hall"), Some("hall"));
    assert_eq!(id.id, "main");
    assert_eq!(id.label.as_deref(), Some("Hall"));
    assert_eq!(id.entry_camera.as_deref(), Some("door"));
    assert_eq!(id.compile_profile.as_deref(), Some("fast"));
}

#[test]
fn node_ids_and_labels() {
    assert_eq!(scene_mesh_label(None, Some("Cube"), 3, 1, 2), "Cube#primitive_1");
    assert_eq!(scene_mesh_label(None, None, 3, 0, 1), "mesh_node_3");
    assert_eq!(stable_scene_mesh_id(Some("id"), Some("n"), None, 3, 0, 1), "id");
    assert_eq!(stable_scene_mesh_id(None, None, None, 12, 4, 5), "mesh_node_12#primitive_4");
    assert_eq!(camera_label(None, Some("cam"), 1), "cam");
    assert_eq!(camera_label(None, None, 1), "camera_node_1");
    assert_eq!(stable_scene_camera_id(None, Some("n"), Some("cam"), 1), "n");
    assert_eq!(scene_light_label(None, None, 7), "light_node_7");
    assert_eq!(stable_scene_light_id(None, None, Some("sun"), 7), "sun");
    assert_eq!(anchor_label(None, 0), "anchor_node_0");
    assert_eq!(stable_anchor_id(Some("spawn"), Some("n"), 0), "spawn");
    assert_eq!(node_display_name(None, 10), "node_10");
    assert_eq!(clip_name(None, 2), "animation_2");
    assert_eq!(clip_name(Some("Walk"), 2), "Walk");
}

#[test]
fn flatten_moves_indices_past_earlier_vertices() {
    let nodes = vec![
        IndexedMesh { vertices: vec!['a', 'b', 'c'], indices: vec![0, 1, 2] },
        IndexedMesh { vertices: vec!['d', 'e', 'f'], indices: vec![2, 1, 0] },
    ];
    let mesh = flatten_mesh_nodes(&nodes, "m.glb").unwrap();
    assert_eq!(mesh.vertices, vec!['a', 'b', 'c', 'd', 'e', 'f']);
    assert_eq!(mesh.indices, vec![0, 1, 2, 5, 4, 3]);
    let empty: Vec<IndexedMesh<char>> = vec![];
    assert_eq!(
        flatten_mesh_nodes(&empty, "m.glb").unwrap_err().message(),
        "GLB format error: GLB 'm.glb' did not produce any triangle geometry"
    );
}

#[test]
fn node_plans() {
    let bare = NodeFacts {
        has_skin: false,
        has_morph_weights: false,
        has_mesh: false,
        has_camera: false,
        light: None,
        anchor_tagged: false,
        has_vzglyd_id: false,
        child_count: 0,
    };
    let plan = plan_node(&bare);
    assert!(plan.warn_empty && !plan.anchor);
    let plan = plan_node(&NodeFacts { has_vzglyd_id: true, ..bare });
    assert!(plan.anchor && !plan.warn_empty);
    let plan = plan_node(&NodeFacts { child_count: 2, ..bare });
    assert!(!plan.anchor && !plan.warn_empty);
    let plan = plan_node(&NodeFacts {
        light: Some(LightFacts::Directional { degenerate: true }),
        has_skin: true,
        ..bare
    });
    assert!(!plan.import_light && plan.warn_skin && !plan.warn_empty);
    assert_eq!(plan.light_warning, Some(NodeWarning::DegenerateLight));
    let plan = plan_node(&NodeFacts {
        light: Some(LightFacts::Directional { degenerate: false }),
        ..bare
    });
    assert!(plan.import_light && plan.light_warning.is_none());
    assert_eq!(
        NodeWarning::SpotLight.text("lamp", "room"),
        "ignored unsupported spot light on node 'lamp' while importing scene 'room'"
    );
    assert_eq!(
        NodeWarning::DegenerateLight.text("sun", "room"),
        "ignored directional light on node 'sun' with a degenerate transform while importing scene 'room'"
    );
}

#[test]
fn animation_channel_verdicts() {
    let facts = ChannelFacts {
        node_index: 4,
        interpolation: Interpolation::Linear,
        input_count: Some(2),
        property: ChannelProperty::Rotation,
        outputs: ChannelOutputs::Transforms(2),
    };
    let v = judge_channel("Spin", &facts);
    assert!(v.warnings.is_empty());
    assert!(v.counts_toward_duration);
    assert_eq!(v.path, Some(AnimationPath::Rotation));

    let v = judge_channel(
        "Spin",
        &ChannelFacts { interpolation: Interpolation::Step, outputs: ChannelOutputs::Transforms(3), ..facts },
    );
    assert_eq!(v.warnings.len(), 2);
    assert!(v.warnings[0].starts_with("animation 'Spin': node '4' uses Step interpolation;"));
    assert_eq!(
        v.warnings[1],
        "animation 'Spin': channel for node '4' has mismatched times (2) and values (3)"
    );
    assert!(v.counts_toward_duration);
    assert_eq!(v.path, None);

    let v = judge_channel("Spin", &ChannelFacts { input_count: None, ..facts });
    assert_eq!(v.warnings, vec!["animation 'Spin': channel for node '4' has no input times".to_string()]);
    assert!(!v.counts_toward_duration);

    let v = judge_channel("Spin", &ChannelFacts { input_count: Some(0), ..facts });
    assert!(v.warnings.is_empty() && !v.counts_toward_duration && v.path.is_none());

    let v = judge_channel("Spin", &ChannelFacts { property: ChannelProperty::MorphTargetWeights, ..facts });
    assert_eq!(v.warnings, vec!["animation 'Spin': skipping morph weight channel on node '4'".to_string()]);
}

#[test]
fn extras_are_read_with_warnings() {
    let raw = JsonValue::Object(vec![
        ("vzglyd_anchor".into(), JsonValue::Bool(true)),
        ("vzglyd_hidden".into(), JsonValue::String("yes".into())),
        ("vzglyd_id".into(), JsonValue::String("door".into())),
        ("vzglyd_material".into(), JsonValue::Null),
    ]);
    let (extras, warnings) = read_extras(raw);
    assert_eq!(extras.vzglyd_id.as_deref(), Some("door"));
    assert!(extras.vzglyd_anchor_tagged);
    assert_eq!(extras.vzglyd_anchor, None);
    assert!(!extras.vzglyd_hidden);
    assert_eq!(extras.raw.len(), 4);
    assert_eq!(warnings.len(), 2);
    assert!(matches!(&warnings[0], ExtraWarning::NotString { key, member: 3 } if key == "vzglyd_material"));
    assert!(matches!(&warnings[1], ExtraWarning::NotBool { key, member: 1 } if key == "vzglyd_hidden"));
    let context = extras_context(ExtrasOwner::Node, "Door");
    assert_eq!(
        warnings[1].text(&context, "\"yes\""),
        "ignored non-bool extras key 'vzglyd_hidden' on node 'Door': \"yes\""
    );

    let (extras, warnings) = read_extras(JsonValue::Array(vec![]));
    assert!(extras.raw.is_empty() && extras.vzglyd_id.is_none());
    assert_eq!(warnings.len(), 1);
    assert_eq!(
        warnings[0].text(&extras_context(ExtrasOwner::Scene, "s"), ""),
        "ignored non-object extras on scene 's'"
    );
}

#[test]
fn unsupported_anchor_warns_twice() {
    let raw = JsonValue::Object(vec![("vzglyd_anchor".into(), JsonValue::Null)]);
    let (extras, warnings) = read_extras(raw);
    assert!(!extras.vzglyd_anchor_tagged);
    assert_eq!(warnings.len(), 2);
    assert!(matches!(warnings[0], ExtraWarning::UnsupportedAnchor { member: 0 }));
}

#[test]
fn material_hint_and_default_indices() {
    let mut extras = ImportedExtras::default();
    assert_eq!(material_class_hint(&extras, Some("Brick")).as_deref(), Some("Brick"));
    extras.vzglyd_material = Some("glass".into());
    assert_eq!(material_class_hint(&extras, Some("Brick")).as_deref(), Some("glass"));
    assert_eq!(sequential_indices(4), vec![0, 1, 2, 3]);
    assert!(sequential_indices(0).is_empty());
}

fn glb_bytes(json: &str, bin: Option<&[u8]>) -> Vec<u8> {
    let mut json_chunk = json.as_bytes().to_vec();
    while json_chunk.len() % 4 != 0 {
        json_chunk.push(b' ');
    }
    let mut body = Vec::new();
    body.extend_from_slice(&(json_chunk.len() as u32).to_le_bytes());
    body.extend_from_slice(b"JSON");
    body.extend_from_slice(&json_chunk);
    if let Some(bin) = bin {
        let mut bin_chunk = bin.to_vec();
        while bin_chunk.len() % 4 != 0 {
            bin_chunk.push(0);
        }
        body.extend_from_slice(&(bin_chunk.len() as u32).to_le_bytes());
        body.extend_from_slice(b"BIN\0");
        body.extend_from_slice(&bin_chunk);
    }
    let mut out = Vec::new();
    out.extend_from_slice(b"glTF");
    out.extend_from_slice(&2u32.to_le_bytes());
    out.extend_from_slice(&((12 + body.len()) as u32).to_le_bytes());
    out.extend_from_slice(&body);
    out
}

fn outline(has_blob: bool, buffers_bin: Vec<bool>, default_scene: Option<usize>, names: Vec<Option<&str>>) -> GlbOutline {
    GlbOutline {
        blob_len: if has_blob { Some(16) } else { None },
        buffer_uris: buffers_bin
            .into_iter()
            .map(|bin| if bin { None } else { Some("data.bin".to_string()) })
            .collect(),
        default_scene,
        scene_names: names.into_iter().map(|n| n.map(String::from)).collect(),
    }
}

fn format_text(e: GlbError) -> String {
    match e {
        GlbError::FormatError(m) => m,
        other => panic!("expected a format error, got {other:?}"),
    }
}

#[test]
fn choose_scene_needs_blob_first() {
    let o = outline(false, vec![false], None, vec![]);
    let e = choose_glb_scene("a.glb", Some("a"), &o, None).unwrap_err();
    assert_eq!(format_text(e), "GLB 'a.glb' is missing its binary buffer chunk");
}

#[test]
fn choose_scene_rejects_external_buffer() {
    let o = outline(true, vec![true, false], Some(0), vec![Some("Main")]);
    let e = choose_glb_scene("a.glb", Some("a"), &o, None).unwrap_err();
    assert_eq!(
        format_text(e),
        "GLB 'a.glb' references an external buffer; package scene assets must be self-contained"
    );
}

#[test]
fn choose_scene_needs_a_scene() {
    let o = outline(true, vec![true], None, vec![]);
    let e = choose_glb_scene("a.glb", Some("a"), &o, None).unwrap_err();
    assert_eq!(format_text(e), "GLB 'a.glb' does not declare a scene to import");
}

#[test]
fn choose_scene_prefers_default_scene() {
    let o = outline(true, vec![true], Some(1), vec![Some("First"), Some("Second")]);
    let (index, identity) = choose_glb_scene("a.glb", Some("a"), &o, None).unwrap();
    assert_eq!(index, 1);
    assert_eq!(identity.id, "Second");
    assert_eq!(identity.label.as_deref(), Some("Second"));
    assert_eq!(identity.compile_profile.as_deref(), Some("default_world"));
}

#[test]
fn choose_scene_falls_back_to_first_and_stem() {
    let o = outline(true, vec![], None, vec![None, Some("Other")]);
    let (index, identity) = choose_glb_scene("a.glb", Some("hall"), &o, None).unwrap();
    assert_eq!(index, 0);
    assert_eq!(identity.id, "hall");
    assert_eq!(identity.label.as_deref(), Some("hall"));
}

#[test]
fn choose_scene_takes_selector_names() {
    let o = outline(true, vec![true], None, vec![Some("Main")]);
    let mut selector = SceneAssetRef::new("scenes/a.glb".to_string());
    selector.id = Some("lobby".to_string());
    let (index, identity) = choose_glb_scene("a.glb", Some("a"), &o, Some(&selector)).unwrap();
    assert_eq!(index, 0);
    assert_eq!(identity.id, "lobby");
    assert_eq!(identity.label.as_deref(), Some("Main"));
}

#[test]
fn open_scene_rejects_other_extensions() {
    let bytes = glb_bytes(r#"{"asset":{"version":"2.0"}}"#, None);
    let e = open_glb_scene("a.gltf", Some("gltf"), Some("a"), &bytes, None).unwrap_err();
    assert_eq!(format_text(e), "unsupported scene format for 'a.gltf': only .glb scene assets are supported");
}

#[test]
fn open_scene_reports_parse_errors() {
    let e = open_glb_scene("a.glb", Some("glb"), Some("a"), b"not a glb file", None).unwrap_err();
    match e {
        GlbError::ParseError(path, why) => {
            assert_eq!(path, "a.glb");
            assert!(!why.is_empty());
        }
        other => panic!("expected a parse error, got {other:?}"),
    }
}

#[test]
fn open_scene_without_bin_chunk_misses_blob() {
    let bytes = glb_bytes(r#"{"asset":{"version":"2.0"},"scenes":[{"name":"Main","nodes":[]}],"scene":0}"#, None);
    let e = open_glb_scene("a.glb", Some("glb"), Some("a"), &bytes, None).unwrap_err();
    assert_eq!(format_text(e), "GLB 'a.glb' is missing its binary buffer chunk");
}

#[test]
fn open_scene_picks_default_scene() {
    let bytes = glb_bytes(
        r#"{"asset":{"version":"2.0"},"buffers":[{"byteLength":4}],"scenes":[{"name":"First","nodes":[]},{"name":"Main","nodes":[]}],"scene":1}"#,
        Some(&[1, 2, 3, 4]),
    );
    let (gltf, index, identity) = open_glb_scene("a.glb", Some("glb"), Some("a"), &bytes, None).unwrap();
    assert_eq!(index, 1);
    assert_eq!(identity.id, "Main");
    assert_eq!(gltf.blob.as_deref().map(|b| b.len()), Some(4));
}

#[test]
fn open_scene_rejects_uri_buffer() {
    let bytes = glb_bytes(
        r#"{"asset":{"version":"2.0"},"buffers":[{"byteLength":4,"uri":"data.bin"}],"scenes":[{"nodes":[]}]}"#,
        Some(&[1, 2, 3, 4]),
    );
    let e = open_glb_scene("a.glb", Some("glb"), Some("a"), &bytes, None).unwrap_err();
    assert_eq!(
        format_text(e),
        "GLB 'a.glb' references an external buffer; package scene assets must be self-contained"
    );
}

#[test]
fn open_scene_refuses_short_glb_length() {
    let mut bytes = b"glTF".to_vec();
    bytes.extend_from_slice(&2u32.to_le_bytes());
    bytes.extend_from_slice(&5u32.to_le_bytes());
    let e = open_glb_scene("a.glb", Some("glb"), Some("a"), &bytes, None).unwrap_err();
    match e {
        GlbError::ParseError(path, why) => {
            assert_eq!(path, "a.glb");
            assert_eq!(why, "could not completely read the object");
        }
        other => panic!("expected a parse error, got {other:?}"),
    }
}

#[test]
fn open_scene_reports_overlong_glb_length() {
    let mut bytes = b"glTF".to_vec();
    bytes.extend_from_slice(&2u32.to_le_bytes());
    bytes.extend_from_slice(&400u32.to_le_bytes());
    let e = open_glb_scene("a.glb", Some("glb"), Some("a"), &bytes, None).unwrap_err();
    match e {
        GlbError::ParseError(_, why) => assert_eq!(why, "could not completely read the object"),
        other => panic!("expected a parse error, got {other:?}"),
    }
}
