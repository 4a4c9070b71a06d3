use vzglyd_kernel::shader::{
    assembled_slide_shader_source, check_shader_interface, shader_prelude,
    validate_shader_source, validate_slide_shader_body, EntryPoint, GlobalSlot, ShaderContract,
    ShaderInterface, SpaceKind, StageKind,
};

const MINIMAL_BODY: &str = r#"
@vertex
fn vs_main(input: VzglydVertexInput) -> VzglydVertexOutput {
    var output: VzglydVertexOutput;
    output.clip_pos = vec4<f32>(input.position, 1.0);
    output.tex_coords = input.tex_coords;
    output.color = input.color;
    output.mode = input.mode;
    return output;
}

@fragment
fn fs_main(input: VzglydVertexOutput) -> @location(0) vec4<f32> {
    return input.color;
}
"#;

#[test]
fn validate_minimal_vertex_fragment() {
    let result = validate_slide_shader_body(
        "test.wgsl",
        MINIMAL_BODY,
        ShaderContract::Screen2D,
        "vs_main",
        "fs_main",
    );
    assert!(result.is_ok(), "Validation failed: {:?}", result);
}

#[test]
fn reject_compute_shader() {
    let shader_body = r#"
@compute @workgroup_size(1)
fn cs_main() {}
"#;

    let result = validate_slide_shader_body(
        "test.wgsl",
        shader_body,
        ShaderContract::Screen2D,
        "vs_main",
        "fs_main",
    );
    assert!(result.is_err());
    let err = result.unwrap_err();
    assert!(err.summary().contains("compute"));
}

#[test]
fn reject_storage_buffer() {
    let shader_body = r#"
@group(0) @binding(10) var<storage> data: array<f32>;

@vertex
fn vs_main(input: VzglydVertexInput) -> VzglydVertexOutput {
    var output: VzglydVertexOutput;
    output.clip_pos = vec4<f32>(0.0, 0.0, 0.0, 1.0);
    output.tex_coords = vec2<f32>(0.0, 0.0);
    output.color = vec4<f32>(1.0, 1.0, 1.0, 1.0);
    output.mode = 0.0;
    return output;
}

@fragment
fn fs_main(input: VzglydVertexOutput) -> @location(0) vec4<f32> {
    return input.color;
}
"#;

    let result = validate_slide_shader_body(
        "test.wgsl",
        shader_body,
        ShaderContract::Screen2D,
        "vs_main",
        "fs_main",
    );
    assert!(result.is_err());
    let err = result.unwrap_err();
    assert!(err.summary().contains("storage"));
}

#[test]
fn assembled_source_is_prelude_newline_body() {
    let source = assembled_slide_shader_source(ShaderContract::World3D, "BODY");
    assert_eq!(source, format!("{}\nBODY", shader_prelude(ShaderContract::World3D)));
    assert!(shader_prelude(ShaderContract::Screen2D).starts_with("// VZGLYD shader contract v1: Screen2D"));
    let validated = validate_slide_shader_body(
        "test.wgsl",
        MINIMAL_BODY,
        ShaderContract::Screen2D,
        "vs_main",
        "fs_main",
    )
    .unwrap();
    assert_eq!(validated, assembled_slide_shader_source(ShaderContract::Screen2D, MINIMAL_BODY));
}

#[test]
fn missing_fragment_entry_point_is_named() {
    let err = validate_slide_shader_body(
        "test.wgsl",
        MINIMAL_BODY,
        ShaderContract::Screen2D,
        "vs_main",
        "fs_other",
    )
    .unwrap_err();
    assert_eq!(err.summary(), "missing fragment entry point 'fs_other'");
    assert_eq!(
        err.diagnostic(),
        "The shader must export a fragment function with the specified name."
    );
}

#[test]
fn parse_errors_carry_naga_report() {
    let err = validate_shader_source(
        "broken.wgsl",
        "fn main( {",
        ShaderContract::Screen2D,
        "vs_main",
        "fs_main",
    )
    .unwrap_err();
    assert!(!err.summary().is_empty());
    assert!(err.diagnostic().contains("broken.wgsl"));
}

#[test]
fn bind_group_other_than_zero_is_refused() {
    let body = format!("@group(1) @binding(0) var t_extra: texture_2d<f32>;\n{MINIMAL_BODY}");
    let err = validate_slide_shader_body(
        "test.wgsl",
        &body,
        ShaderContract::Screen2D,
        "vs_main",
        "fs_main",
    )
    .unwrap_err();
    assert_eq!(
        err.summary(),
        "binding @group(1) is unsupported; slide shaders may only use bind group 0"
    );
    assert_eq!(err.diagnostic(), "Change the bind group to 0.");
}

#[test]
fn interface_checks_run_in_order() {
    let iface = ShaderInterface {
        entry_points: vec![
            EntryPoint { name: "vs".into(), stage: StageKind::Vertex },
            EntryPoint { name: "cs".into(), stage: StageKind::Compute },
        ],
        globals: vec![
            GlobalSlot { space: SpaceKind::Other, group: Some(3) },
            GlobalSlot { space: SpaceKind::Immediate, group: None },
        ],
    };
    let err = check_shader_interface(&iface, ShaderContract::Screen2D, "vs", "fs").unwrap_err();
    assert_eq!(err.summary(), "compute entry point 'cs' is not supported in slide shaders");

    let iface = ShaderInterface {
        entry_points: vec![EntryPoint { name: "vs".into(), stage: StageKind::Vertex }],
        globals: iface.globals,
    };
    let err = check_shader_interface(&iface, ShaderContract::Screen2D, "vs", "fs").unwrap_err();
    assert_eq!(err.summary(), "push constants are not supported in slide shaders");
    assert_eq!(err.diagnostic(), "Use uniform buffers instead.");

    let iface = ShaderInterface {
        entry_points: vec![EntryPoint { name: "vs".into(), stage: StageKind::Fragment }],
        globals: vec![GlobalSlot { space: SpaceKind::Other, group: Some(3) }],
    };
    let err = check_shader_interface(&iface, ShaderContract::Screen2D, "vs", "vs").unwrap_err();
    assert_eq!(err.summary(), "missing vertex entry point 'vs'");

    let iface = ShaderInterface {
        entry_points: vec![
            EntryPoint { name: "vs".into(), stage: StageKind::Vertex },
            EntryPoint { name: "fs".into(), stage: StageKind::Fragment },
        ],
        globals: vec![GlobalSlot { space: SpaceKind::Other, group: Some(3) }],
    };
    let err = check_shader_interface(&iface, ShaderContract::World3D, "vs", "fs").unwrap_err();
    assert_eq!(
        err.summary(),
        "binding @group(3) is unsupported; slide shaders may only use bind group 0"
    );
}
