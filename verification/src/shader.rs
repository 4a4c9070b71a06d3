//! Slide shader validation against the WGSL shader contract.
//!
//! A slide ships only the body of its shader; the engine prepends the prelude of the
//! contract it renders with (vertex layout, uniforms and bind group 0). The assembled
//! source must parse and validate under naga, export the named vertex and fragment entry
//! points, and stay inside what slide pipelines offer: no compute stages, no storage
//! buffers, no immediate data (push constants), and no bind group other than 0.

use naga::valid::{Capabilities, ValidationFlags, Validator};
use naga::{AddressSpace, ShaderStage};
use vstd::prelude::*;

use crate::text::{concat3, decimal, decimal_string, owned};

verus! {

/// The shader contract a slide renders with.
#[derive(Debug, Clone, Copy, PartialEq, Eq, Structural)]
pub enum ShaderContract {
    /// Screen-space 2D shaders.
    Screen2D,
    /// World-space 3D shaders.
    World3D,
}

/// Prelude of the screen-space contract.
pub const SCREEN2D_SHADER_PRELUDE: &'static str = r#"// VZGLYD shader contract v1: Screen2D
const VZGLYD_SHADER_CONTRACT_VERSION: u32 = 1u;

struct VzglydVertexInput {
    @location(0) position: vec3<f32>,
    @location(1) tex_coords: vec2<f32>,
    @location(2) color: vec4<f32>,
    @location(3) mode: f32,
};

struct VzglydVertexOutput {
    @builtin(position) clip_pos: vec4<f32>,
    @location(0) tex_coords: vec2<f32>,
    @location(1) color: vec4<f32>,
    @location(2) mode: f32,
};

struct VzglydUniforms {
    time: f32,
    _pad0: f32,
    _pad1: f32,
    _pad2: f32,
};

@group(0) @binding(0) var t_diffuse: texture_2d<f32>;
@group(0) @binding(1) var t_font: texture_2d<f32>;
@group(0) @binding(2) var t_detail: texture_2d<f32>;
@group(0) @binding(3) var t_lookup: texture_2d<f32>;
@group(0) @binding(4) var s_diffuse: sampler;
@group(0) @binding(5) var s_font: sampler;
@group(0) @binding(6) var<uniform> u: VzglydUniforms;
"#;

/// Prelude of the world-space contract.
pub const WORLD3D_SHADER_PRELUDE: &'static str = r#"// VZGLYD shader contract v1: World3D
const VZGLYD_SHADER_CONTRACT_VERSION: u32 = 1u;

struct VzglydVertexInput {
    @location(0) position: vec3<f32>,
    @location(1) normal: vec3<f32>,
    @location(2) color: vec4<f32>,
    @location(3) mode: f32,
};

struct VzglydVertexOutput {
    @builtin(position) clip_pos: vec4<f32>,
    @location(0) world_pos: vec3<f32>,
    @location(1) normal: vec3<f32>,
    @location(2) color: vec4<f32>,
    @location(3) mode: f32,
};

struct VzglydUniforms {
    view_proj: mat4x4<f32>,
    cam_pos: vec3<f32>,
    time: f32,
    fog_color: vec4<f32>,
    fog_start: f32,
    fog_end: f32,
    clock_seconds: f32,
    _pad: f32,
    ambient_light: vec4<f32>,
    main_light_dir: vec4<f32>,
    main_light_color: vec4<f32>,
};

@group(0) @binding(0) var<uniform> u: VzglydUniforms;
@group(0) @binding(1) var t_font: texture_2d<f32>;
@group(0) @binding(2) var t_noise: texture_2d<f32>;
@group(0) @binding(3) var t_material_a: texture_2d<f32>;
@group(0) @binding(4) var t_material_b: texture_2d<f32>;
@group(0) @binding(5) var s_clamp: sampler;
@group(0) @binding(6) var s_repeat: sampler;
"#;

/// The prelude text of `contract`.
pub open spec fn prelude_text(contract: ShaderContract) -> Seq<char> {
    match contract {
        ShaderContract::Screen2D => SCREEN2D_SHADER_PRELUDE@,
        ShaderContract::World3D => WORLD3D_SHADER_PRELUDE@,
    }
}

/// The full source of a slide shader: the prelude, a line break, then the body.
pub open spec fn assembled_text(contract: ShaderContract, body: Seq<char>) -> Seq<char> {
    prelude_text(contract) + "\n"@ + body
}

/// Returns the shader prelude for the given contract.
pub fn shader_prelude(contract: ShaderContract) -> (r: &'static str)
    ensures
        r@ == prelude_text(contract),
{
    match contract {
        ShaderContract::Screen2D => SCREEN2D_SHADER_PRELUDE,
        ShaderContract::World3D => WORLD3D_SHADER_PRELUDE,
    }
}

/// Assembles a complete shader by prepending the contract prelude.
pub fn assembled_slide_shader_source(contract: ShaderContract, shader_body: &str) -> (r: String)
    ensures
        r@ == assembled_text(contract, shader_body@),
{
    concat3(shader_prelude(contract), "\n", shader_body)
}

/// A shader that the contract refuses: a one-line summary and a longer diagnostic.
#[derive(Debug)]
pub struct ShaderValidationError {
    summary: String,
    diagnostic: String,
}

/// A refusal as plain text: (summary, diagnostic).
pub type ShaderIssue = (Seq<char>, Seq<char>);

impl View for ShaderValidationError {
    type V = ShaderIssue;

    closed spec fn view(&self) -> ShaderIssue {
        (self.summary@, self.diagnostic@)
    }
}

impl ShaderValidationError {
    /// Returns a brief summary of the error.
    pub fn summary(&self) -> (r: &str)
        ensures
            r@ == self@.0,
    {
        self.summary.as_str()
    }

    /// Returns the full diagnostic output.
    pub fn diagnostic(&self) -> (r: &str)
        ensures
            r@ == self@.1,
    {
        self.diagnostic.as_str()
    }

    /// An error with the given summary and diagnostic.
    pub fn custom(summary: String, diagnostic: String) -> (r: Self)
        ensures
            r@ == (summary@, diagnostic@),
    {
        ShaderValidationError { summary, diagnostic }
    }
}

/// The refusal carried by an optional error.
pub open spec fn report_of(r: Option<ShaderValidationError>) -> Option<ShaderIssue> {
    match r {
        Some(e) => Some(e@),
        None => None,
    }
}

/// The refusal carried by a check's result.
pub open spec fn outcome_of(r: Result<(), ShaderValidationError>) -> Option<ShaderIssue> {
    match r {
        Ok(_) => None,
        Err(e) => Some(e@),
    }
}

/// The first refusal of two checks run in turn.
pub open spec fn first_issue(a: Option<ShaderIssue>, b: Option<ShaderIssue>) -> Option<ShaderIssue> {
    if a is Some {
        a
    } else {
        b
    }
}

/// The pipeline stage of an entry point, as far as the contract tells stages apart.
#[derive(Debug, Clone, Copy, PartialEq, Eq, Structural)]
pub enum StageKind {
    Vertex,
    Fragment,
    Compute,
    /// Mesh, task and ray-tracing stages.
    Other,
}

/// The address space of a global variable, as far as the contract tells them apart.
#[derive(Debug, Clone, Copy, PartialEq, Eq, Structural)]
pub enum SpaceKind {
    /// Storage buffers.
    Storage,
    /// Immediate data (push constants).
    Immediate,
    /// Uniforms, handles, private and workgroup memory, ray payloads.
    Other,
}

/// An entry point of a shader module.
#[derive(Debug)]
pub struct EntryPoint {
    pub name: String,
    pub stage: StageKind,
}

impl View for EntryPoint {
    type V = (Seq<char>, StageKind);

    open spec fn view(&self) -> (Seq<char>, StageKind) {
        (self.name@, self.stage)
    }
}

/// A global variable of a shader module: its address space and its bind group, if bound.
#[derive(Debug, Clone, Copy)]
pub struct GlobalSlot {
    pub space: SpaceKind,
    pub group: Option<u32>,
}

/// What the contract checks read of a parsed shader module.
#[derive(Debug)]
pub struct ShaderInterface {
    /// Entry points, in declaration order.
    pub entry_points: Vec<EntryPoint>,
    /// Global variables, in declaration order.
    pub globals: Vec<GlobalSlot>,
}

impl ShaderInterface {
    /// The entry points as (name, stage) pairs.
    pub open spec fn entry_view(&self) -> Seq<(Seq<char>, StageKind)> {
        self.entry_points@.map_values(|e: EntryPoint| e@)
    }
}

/// naga's verdict when parsing `source` as WGSL: `None` when it parses, otherwise the
/// error's text and its report rendered against `source` under the path `label`.
pub uninterp spec fn wgsl_parse_failure(label: Seq<char>, source: Seq<char>) -> Option<ShaderIssue>;

/// naga's verdict when validating the module parsed from `source` with every validation
/// flag and capability: `None` when it validates or does not parse, otherwise the error's
/// text and its report rendered against `source` under the path `label`.
pub uninterp spec fn naga_validation_failure(label: Seq<char>, source: Seq<char>) -> Option<ShaderIssue>;

/// The entry points of the module naga parses from `source`, in order (none if it does not
/// parse).
pub uninterp spec fn wgsl_entry_points(source: Seq<char>) -> Seq<(Seq<char>, StageKind)>;

/// The global variables of the module naga parses from `source`, in order (none if it does
/// not parse).
pub uninterp spec fn wgsl_global_slots(source: Seq<char>) -> Seq<GlobalSlot>;

/// `naga::front::wgsl::parse_str` on `source`. The contract claims only that the result is
/// fixed by `label` and `source`; the parse error's `Display` text and
/// `emit_to_string_with_path(source, label)` are handed back unchanged.
/// A normal return is assumed: naga's WGSL front end and validator hold internal
/// `unwrap`s and `unreachable!`s that are not shown never to fire, and no input is left
/// out for them.
#[verifier::external_body]
fn wgsl_parse_report(label: &str, source: &str) -> (r: Option<ShaderValidationError>)
    ensures
        report_of(r) == wgsl_parse_failure(label@, source@),
{
    match naga::front::wgsl::parse_str(source) {
        Ok(_) => None,
        Err(e) => Some(
            ShaderValidationError { summary: e.to_string(), diagnostic: e.emit_to_string_with_path(source, label) },
        ),
    }
}

/// `naga::valid::Validator::validate` (all flags, all capabilities) on the module that
/// `parse_str` makes of `source`. The contract claims only that the result is fixed by
/// `label` and `source`; the error's `Display` text and that of `naga::error::ShaderError`
/// are handed back unchanged.
/// A normal return is assumed: naga's WGSL front end and validator hold internal
/// `unwrap`s and `unreachable!`s that are not shown never to fire, and no input is left
/// out for them.
#[verifier::external_body]
fn naga_validation_report(label: &str, source: &str) -> (r: Option<ShaderValidationError>)
    ensures
        report_of(r) == naga_validation_failure(label@, source@),
{
    let module = match naga::front::wgsl::parse_str(source) {
        Ok(module) => module,
        Err(_) => return None,
    };
    match Validator::new(ValidationFlags::all(), Capabilities::all()).validate(&module) {
        Ok(_) => None,
        Err(e) => Some(ShaderValidationError { summary: e.to_string(), diagnostic: naga::error::ShaderError {
            source: source.to_string(), label: Some(label.to_string()), inner: Box::new(e) }.to_string() }),
    }
}

/// `naga::Module::entry_points` of the module that `parse_str` makes of `source`, each
/// turned into its name and stage. The contract claims only that the result is fixed by
/// `source`.
/// A normal return is assumed: naga's WGSL front end and validator hold internal
/// `unwrap`s and `unreachable!`s that are not shown never to fire, and no input is left
/// out for them.
#[verifier::external_body]
fn wgsl_entry_point_list(source: &str) -> (r: Vec<EntryPoint>)
    ensures
        r@.map_values(|e: EntryPoint| e@) == wgsl_entry_points(source@),
{
    match naga::front::wgsl::parse_str(source) {
        Ok(module) => module.entry_points.iter().map(|ep| EntryPoint { name: ep.name.clone(), stage: match ep.stage {
            ShaderStage::Vertex => StageKind::Vertex, ShaderStage::Fragment => StageKind::Fragment,
            ShaderStage::Compute => StageKind::Compute, _ => StageKind::Other } }).collect(),
        Err(_) => Vec::new(),
    }
}

/// `naga::Module::global_variables` of the module that `parse_str` makes of `source`, each
/// turned into its address space and bind group. The contract claims only that the result
/// is fixed by `source`.
/// A normal return is assumed: naga's WGSL front end and validator hold internal
/// `unwrap`s and `unreachable!`s that are not shown never to fire, and no input is left
/// out for them.
#[verifier::external_body]
fn wgsl_global_list(source: &str) -> (r: Vec<GlobalSlot>)
    ensures
        r@ == wgsl_global_slots(source@),
{
    match naga::front::wgsl::parse_str(source) {
        Ok(module) => module.global_variables.iter().map(|(_, g)| GlobalSlot { space: match g.space {
            AddressSpace::Storage { .. } => SpaceKind::Storage, AddressSpace::Immediate => SpaceKind::Immediate,
            _ => SpaceKind::Other }, group: g.binding.as_ref().map(|b| b.group) }).collect(),
        Err(_) => Vec::new(),
    }
}

/// The refusal for the first compute entry point, if any.
pub open spec fn compute_issue(eps: Seq<(Seq<char>, StageKind)>) -> Option<ShaderIssue>
    decreases eps.len(),
{
    if eps.len() == 0 {
        None
    } else if compute_issue(eps.drop_last()) is Some {
        compute_issue(eps.drop_last())
    } else if eps.last().1 == StageKind::Compute {
        Some(
            (
                "compute entry point '"@ + eps.last().0 + "' is not supported in slide shaders"@,
                "Compute shaders are not supported. Use vertex and fragment shaders only."@,
            ),
        )
    } else {
        None
    }
}

/// The refusal for the first global in a storage or immediate address space, if any.
pub open spec fn space_issue(gs: Seq<GlobalSlot>) -> Option<ShaderIssue>
    decreases gs.len(),
{
    if gs.len() == 0 {
        None
    } else if space_issue(gs.drop_last()) is Some {
        space_issue(gs.drop_last())
    } else if gs.last().space == SpaceKind::Storage {
        Some(
            (
                "storage buffers are not supported in slide shaders"@,
                "Use uniform buffers or textures instead."@,
            ),
        )
    } else if gs.last().space == SpaceKind::Immediate {
        Some(
            (
                "push constants are not supported in slide shaders"@,
                "Use uniform buffers instead."@,
            ),
        )
    } else {
        None
    }
}

/// Whether `eps` holds an entry point of `stage` named `name`.
pub open spec fn exports(eps: Seq<(Seq<char>, StageKind)>, stage: StageKind, name: Seq<char>) -> bool {
    exists|i: int| 0 <= i < eps.len() && #[trigger] eps[i] == (name, stage)
}

/// The refusal for a missing vertex or fragment entry point, if any.
pub open spec fn entry_issue(
    eps: Seq<(Seq<char>, StageKind)>,
    vs: Seq<char>,
    fs: Seq<char>,
) -> Option<ShaderIssue> {
    if !exports(eps, StageKind::Vertex, vs) {
        Some(
            (
                "missing vertex entry point '"@ + vs + "'"@,
                "The shader must export a vertex function with the specified name."@,
            ),
        )
    } else if !exports(eps, StageKind::Fragment, fs) {
        Some(
            (
                "missing fragment entry point '"@ + fs + "'"@,
                "The shader must export a fragment function with the specified name."@,
            ),
        )
    } else {
        None
    }
}

/// The refusal for the first global bound outside bind group 0, if any.
pub open spec fn group_issue(gs: Seq<GlobalSlot>) -> Option<ShaderIssue>
    decreases gs.len(),
{
    if gs.len() == 0 {
        None
    } else if group_issue(gs.drop_last()) is Some {
        group_issue(gs.drop_last())
    } else if gs.last().group matches Some(g) && g != 0 {
        Some(
            (
                "binding @group("@ + decimal(gs.last().group->0 as nat)
                    + ") is unsupported; slide shaders may only use bind group 0"@,
                "Change the bind group to 0."@,
            ),
        )
    } else {
        None
    }
}

/// The first refusal of the contract checks on a parsed module: unsupported stages and
/// address spaces, then the required entry points, then the bind groups.
pub open spec fn interface_issue(
    eps: Seq<(Seq<char>, StageKind)>,
    gs: Seq<GlobalSlot>,
    vs: Seq<char>,
    fs: Seq<char>,
) -> Option<ShaderIssue> {
    first_issue(
        first_issue(compute_issue(eps), space_issue(gs)),
        first_issue(entry_issue(eps, vs, fs), group_issue(gs)),
    )
}

/// The first refusal of a complete shader source: naga's parse, naga's validation, then
/// the contract checks on the parsed module.
pub open spec fn source_issue(
    label: Seq<char>,
    source: Seq<char>,
    vs: Seq<char>,
    fs: Seq<char>,
) -> Option<ShaderIssue> {
    first_issue(
        first_issue(wgsl_parse_failure(label, source), naga_validation_failure(label, source)),
        interface_issue(wgsl_entry_points(source), wgsl_global_slots(source), vs, fs),
    )
}

proof fn lemma_compute_issue_extends(eps: Seq<(Seq<char>, StageKind)>, n: int)
    requires
        0 <= n <= eps.len(),
        compute_issue(eps.take(n)) is Some,
    ensures
        compute_issue(eps) == compute_issue(eps.take(n)),
    decreases eps.len() - n,
{
    if n < eps.len() {
        assert(eps.drop_last().take(n) == eps.take(n));
        lemma_compute_issue_extends(eps.drop_last(), n);
    } else {
        assert(eps.take(n) == eps);
    }
}

proof fn lemma_space_issue_extends(gs: Seq<GlobalSlot>, n: int)
    requires
        0 <= n <= gs.len(),
        space_issue(gs.take(n)) is Some,
    ensures
        space_issue(gs) == space_issue(gs.take(n)),
    decreases gs.len() - n,
{
    if n < gs.len() {
        assert(gs.drop_last().take(n) == gs.take(n));
        lemma_space_issue_extends(gs.drop_last(), n);
    } else {
        assert(gs.take(n) == gs);
    }
}

proof fn lemma_group_issue_extends(gs: Seq<GlobalSlot>, n: int)
    requires
        0 <= n <= gs.len(),
        group_issue(gs.take(n)) is Some,
    ensures
        group_issue(gs) == group_issue(gs.take(n)),
    decreases gs.len() - n,
{
    if n < gs.len() {
        assert(gs.drop_last().take(n) == gs.take(n));
        lemma_group_issue_extends(gs.drop_last(), n);
    } else {
        assert(gs.take(n) == gs);
    }
}

/// Refuses compute entry points, storage buffers and immediate data (push constants).
pub fn reject_unsupported_features(iface: &ShaderInterface) -> (r: Result<(), ShaderValidationError>)
    ensures
        outcome_of(r) == first_issue(compute_issue(iface.entry_view()), space_issue(iface.globals@)),
{
    let ghost eps = iface.entry_view();
    let mut i: usize = 0;
    while i < iface.entry_points.len()
        invariant
            eps == iface.entry_view(),
            i <= eps.len(),
            compute_issue(eps.take(i as int)) is None,
        decreases eps.len() - i,
    {
        let ep = &iface.entry_points[i];
        assert(eps.take(i + 1).drop_last() == eps.take(i as int));
        assert(eps.take(i + 1).last() == ep@);
        if ep.stage == StageKind::Compute {
            proof {
                lemma_compute_issue_extends(eps, i + 1);
            }
            return Err(
                ShaderValidationError::custom(
                    concat3("compute entry point '", ep.name.as_str(), "' is not supported in slide shaders"),
                    owned("Compute shaders are not supported. Use vertex and fragment shaders only."),
                ),
            );
        }
        i += 1;
    }
    assert(eps.take(i as int) == eps);
    let ghost gs = iface.globals@;
    let mut k: usize = 0;
    while k < iface.globals.len()
        invariant
            gs == iface.globals@,
            k <= gs.len(),
            space_issue(gs.take(k as int)) is None,
            compute_issue(iface.entry_view()) is None,
        decreases gs.len() - k,
    {
        let g = iface.globals[k];
        assert(gs.take(k + 1).drop_last() == gs.take(k as int));
        assert(gs.take(k + 1).last() == g);
        if g.space == SpaceKind::Storage {
            proof {
                lemma_space_issue_extends(gs, k + 1);
            }
            return Err(
                ShaderValidationError::custom(
                    owned("storage buffers are not supported in slide shaders"),
                    owned("Use uniform buffers or textures instead."),
                ),
            );
        }
        if g.space == SpaceKind::Immediate {
            proof {
                lemma_space_issue_extends(gs, k + 1);
            }
            return Err(
                ShaderValidationError::custom(
                    owned("push constants are not supported in slide shaders"),
                    owned("Use uniform buffers instead."),
                ),
            );
        }
        k += 1;
    }
    assert(gs.take(k as int) == gs);
    Ok(())
}

/// Whether `a` and `b` hold the same text.
fn same_name(a: &str, b: &str) -> (r: bool)
    ensures
        r == (a@ == b@),
{
    crate::text::same_text(a, b)
}

/// Requires a vertex entry point named `vs_entry` and a fragment entry point named
/// `fs_entry`.
pub fn validate_entry_points(
    iface: &ShaderInterface,
    vs_entry: &str,
    fs_entry: &str,
) -> (r: Result<(), ShaderValidationError>)
    ensures
        outcome_of(r) == entry_issue(iface.entry_view(), vs_entry@, fs_entry@),
{
    let ghost eps = iface.entry_view();
    let mut has_vertex = false;
    let mut has_fragment = false;
    let mut i: usize = 0;
    while i < iface.entry_points.len()
        invariant
            eps == iface.entry_view(),
            i <= eps.len(),
            has_vertex == (exists|j: int| 0 <= j < i && #[trigger] eps[j] == (vs_entry@, StageKind::Vertex)),
            has_fragment == (exists|j: int|
                0 <= j < i && #[trigger] eps[j] == (fs_entry@, StageKind::Fragment)),
        decreases eps.len() - i,
    {
        let ep = &iface.entry_points[i];
        assert(eps[i as int] == ep@);
        if ep.stage == StageKind::Vertex && same_name(ep.name.as_str(), vs_entry) {
            has_vertex = true;
        }
        if ep.stage == StageKind::Fragment && same_name(ep.name.as_str(), fs_entry) {
            has_fragment = true;
        }
        i += 1;
    }
    if !has_vertex {
        return Err(
            ShaderValidationError::custom(
                concat3("missing vertex entry point '", vs_entry, "'"),
                owned("The shader must export a vertex function with the specified name."),
            ),
        );
    }
    if !has_fragment {
        return Err(
            ShaderValidationError::custom(
                concat3("missing fragment entry point '", fs_entry, "'"),
                owned("The shader must export a fragment function with the specified name."),
            ),
        );
    }
    Ok(())
}

/// Refuses any global bound outside bind group 0. Both contracts lay their resources out in
/// group 0, so the contract does not change the check.
pub fn validate_contract_bindings(
    iface: &ShaderInterface,
    contract: ShaderContract,
) -> (r: Result<(), ShaderValidationError>)
    ensures
        outcome_of(r) == group_issue(iface.globals@),
{
    let ghost gs = iface.globals@;
    let mut k: usize = 0;
    while k < iface.globals.len()
        invariant
            gs == iface.globals@,
            k <= gs.len(),
            group_issue(gs.take(k as int)) is None,
        decreases gs.len() - k,
    {
        let g = iface.globals[k];
        assert(gs.take(k + 1).drop_last() == gs.take(k as int));
        assert(gs.take(k + 1).last() == g);
        if let Some(group) = g.group {
            if group != 0 {
                proof {
                    lemma_group_issue_extends(gs, k + 1);
                }
                let number = decimal_string(group as usize);
                return Err(
                    ShaderValidationError::custom(
                        concat3(
                            "binding @group(",
                            number.as_str(),
                            ") is unsupported; slide shaders may only use bind group 0",
                        ),
                        owned("Change the bind group to 0."),
                    ),
                );
            }
        }
        k += 1;
    }
    assert(gs.take(k as int) == gs);
    Ok(())
}

/// The contract checks on a parsed module, in the order the engine runs them.
pub fn check_shader_interface(
    iface: &ShaderInterface,
    contract: ShaderContract,
    vs_entry: &str,
    fs_entry: &str,
) -> (r: Result<(), ShaderValidationError>)
    ensures
        outcome_of(r) == interface_issue(iface.entry_view(), iface.globals@, vs_entry@, fs_entry@),
{
    reject_unsupported_features(iface)?;
    validate_entry_points(iface, vs_entry, fs_entry)?;
    validate_contract_bindings(iface, contract)
}

/// Validates a complete shader source (prelude and body) against the contract: naga must
/// parse and validate it, and the module must pass the contract checks.
pub fn validate_shader_source(
    label: &str,
    source: &str,
    contract: ShaderContract,
    vs_entry: &str,
    fs_entry: &str,
) -> (r: Result<(), ShaderValidationError>)
    ensures
        outcome_of(r) == source_issue(label@, source@, vs_entry@, fs_entry@),
{
    if let Some(e) = wgsl_parse_report(label, source) {
        return Err(e);
    }
    if let Some(e) = naga_validation_report(label, source) {
        return Err(e);
    }
    let iface = ShaderInterface {
        entry_points: wgsl_entry_point_list(source),
        globals: wgsl_global_list(source),
    };
    check_shader_interface(&iface, contract, vs_entry, fs_entry)
}

/// Validates a shader body by prepending the contract prelude; on success returns the
/// assembled source.
pub fn validate_slide_shader_body(
    label: &str,
    shader_body: &str,
    contract: ShaderContract,
    vs_entry: &str,
    fs_entry: &str,
) -> (r: Result<String, ShaderValidationError>)
    ensures
        match r {
            Ok(s) => s@ == assembled_text(contract, shader_body@) && source_issue(
                label@,
                assembled_text(contract, shader_body@),
                vs_entry@,
                fs_entry@,
            ) is None,
            Err(e) => source_issue(label@, assembled_text(contract, shader_body@), vs_entry@, fs_entry@)
                == Some(e@),
        },
{
    let shader_source = assembled_slide_shader_source(contract, shader_body);
    validate_shader_source(label, shader_source.as_str(), contract, vs_entry, fs_entry)?;
    Ok(shader_source)
}

} // verus!
