//! The slide manifest: what a slide bundle declares about itself, and the
//! rules a declaration must follow before the engine loads the bundle.

use vstd::prelude::*;

use crate::json::{json_match, JsonNumber, JsonValue};
use crate::text::{
    blank, chars_of, concat2, concat3, concat4, concat5, decimal, decimal_string, find_last,
    is_blank, last_index_of, owned, same_text, starts_with_char, text_is_empty, trim, trimmed,
};
use crate::transition::TransitionKind;

verus! {

/// Minimum allowed display duration in seconds.
pub const MIN_DISPLAY_DURATION_SECONDS: u32 = 1;

/// Maximum allowed display duration in seconds.
pub const MAX_DISPLAY_DURATION_SECONDS: u32 = 300;

/// Slide manifest structure.
#[derive(Debug, Clone, Default)]
pub struct SlideManifest {
    /// Slide name.
    pub name: Option<String>,
    /// Slide version.
    pub version: Option<String>,
    /// Slide author.
    pub author: Option<String>,
    /// Slide description.
    pub description: Option<String>,
    /// ABI version (must match engine ABI).
    pub abi_version: Option<u32>,
    /// Scene space ("screen_2d" or "world_3d").
    pub scene_space: Option<String>,
    /// Asset references.
    pub assets: Option<ManifestAssets>,
    /// Shader overrides.
    pub shaders: Option<ManifestShaders>,
    /// Display configuration.
    pub display: Option<DisplayConfig>,
    /// Hardware requirements.
    pub requirements: Option<ManifestRequirements>,
    /// Sidecar configuration.
    pub sidecar: Option<ManifestSidecar>,
    /// Parameter schema for runtime customisation.
    pub params: Option<ManifestParamsSchema>,
}

/// Asset references in a manifest.
#[derive(Debug, Clone, Default)]
pub struct ManifestAssets {
    /// Cassette artwork used by management tools and bundle libraries.
    pub art: Option<ManifestCassetteArt>,
    /// Texture assets.
    pub textures: Vec<AssetRef>,
    /// Mesh assets.
    pub meshes: Vec<AssetRef>,
    /// Scene assets.
    pub scenes: Vec<SceneAssetRef>,
    /// Sound assets (MP3, WAV, Ogg, FLAC).
    pub sounds: Vec<SoundAssetRef>,
}

/// Required cassette artwork for a bundle.
#[derive(Debug, Clone)]
pub struct ManifestCassetteArt {
    /// J-card cassette cover image.
    pub j_card: ArtAssetRef,
    /// Tape label image for side A.
    pub side_a_label: ArtAssetRef,
    /// Tape label image for side B.
    pub side_b_label: ArtAssetRef,
}

/// Reference to a bundle artwork image.
#[derive(Debug, Clone)]
pub struct ArtAssetRef {
    /// Path to the artwork image file.
    pub path: String,
    /// Human-readable label for UI.
    pub label: Option<String>,
}

/// Reference to a sound asset.
#[derive(Debug, Clone)]
pub struct SoundAssetRef {
    /// Path to the sound file.
    pub path: String,
    /// Audio format hint.
    pub format: Option<String>,
    /// Label for the asset.
    pub label: Option<String>,
    /// Unique ID for the asset.
    pub id: Option<String>,
}

/// Reference to a texture or mesh asset.
#[derive(Debug, Clone)]
pub struct AssetRef {
    /// Path to the asset file.
    pub path: String,
    /// Usage hint (e.g., "material", "font", "detail").
    pub usage: Option<String>,
    /// Slot index for the asset.
    pub slot: Option<usize>,
    /// Label for the asset.
    pub label: Option<String>,
    /// Unique ID for the asset.
    pub id: Option<String>,
}

/// Reference to a scene asset.
#[derive(Debug, Clone)]
pub struct SceneAssetRef {
    /// Path to the scene file.
    pub path: String,
    /// Label for the scene.
    pub label: Option<String>,
    /// Unique ID for the scene.
    pub id: Option<String>,
    /// Entry camera name.
    pub entry_camera: Option<String>,
    /// Compile profile for the scene.
    pub compile_profile: Option<String>,
}

/// Shader overrides in a manifest.
#[derive(Debug, Clone, Default)]
pub struct ManifestShaders {
    /// Vertex shader path.
    pub vertex: Option<String>,
    /// Fragment shader path.
    pub fragment: Option<String>,
}

/// Display configuration in a manifest.
#[derive(Debug, Clone, Default)]
pub struct DisplayConfig {
    /// Display duration in seconds.
    pub duration_seconds: Option<u32>,
    /// Transition-in kind.
    pub transition_in: Option<String>,
    /// Transition-out kind.
    pub transition_out: Option<String>,
}

/// Hardware requirements in a manifest.
#[derive(Debug, Clone, Default)]
pub struct ManifestRequirements {
    /// Minimum texture dimension.
    pub min_texture_dim: Option<u32>,
    /// Whether depth buffer is used.
    pub uses_depth_buffer: Option<bool>,
    /// Whether transparency is used.
    pub uses_transparency: Option<bool>,
}

/// Sidecar configuration in a manifest.
#[derive(Debug, Clone, Default)]
pub struct ManifestSidecar {
    /// WASI preopen directories, each `host:guest`.
    pub wasi_preopens: Vec<String>,
}

/// Parameter schema declared in a manifest.
#[derive(Debug, Clone, Default)]
pub struct ManifestParamsSchema {
    /// Parameter field definitions.
    pub fields: Vec<ManifestParamField>,
}

/// A single parameter field in the manifest params schema.
#[derive(Debug, Clone)]
pub struct ManifestParamField {
    /// Unique key used to identify the parameter.
    pub key: String,
    /// Value type.
    pub kind: ManifestParamType,
    /// Whether the parameter must be supplied.
    pub required: bool,
    /// Human-readable label for UI.
    pub label: Option<String>,
    /// Help text for UI.
    pub help: Option<String>,
    /// Default value (must match `kind`).
    pub default: Option<JsonValue>,
    /// Allowed values (empty means unrestricted).
    pub options: Vec<ManifestParamOption>,
}

/// One entry in a parameter field's option list.
#[derive(Debug, Clone)]
pub struct ManifestParamOption {
    /// The option value (must match the field's `kind`).
    pub value: JsonValue,
    /// Human-readable label for UI.
    pub label: Option<String>,
}

/// Supported parameter value types.
#[derive(Debug, Clone, Copy, PartialEq, Eq, Structural)]
pub enum ManifestParamType {
    /// UTF-8 string value.
    String,
    /// Integer numeric value.
    Integer,
    /// Floating-point numeric value.
    Number,
    /// Boolean value.
    Boolean,
    /// Arbitrary JSON value.
    Json,
}

/// The lower-case name of a parameter type, as messages and manifests spell it.
pub open spec fn param_type_name(kind: ManifestParamType) -> Seq<char> {
    match kind {
        ManifestParamType::String => "string"@,
        ManifestParamType::Integer => "integer"@,
        ManifestParamType::Number => "number"@,
        ManifestParamType::Boolean => "boolean"@,
        ManifestParamType::Json => "json"@,
    }
}

impl ManifestParamType {
    /// The lower-case name of this type ("string", "integer", ...).
    pub fn as_str(self) -> (r: &'static str)
        ensures
            r@ == param_type_name(self),
    {
        match self {
            ManifestParamType::String => "string",
            ManifestParamType::Integer => "integer",
            ManifestParamType::Number => "number",
            ManifestParamType::Boolean => "boolean",
            ManifestParamType::Json => "json",
        }
    }
}

/// Manifest validation errors.
#[derive(Debug, Clone, PartialEq, Eq)]
pub enum ManifestValidationError {
    /// ABI version mismatch.
    AbiVersion {
        /// The ABI version found in the manifest.
        found: u32,
        /// The expected ABI version from the engine.
        expected: u32,
    },
    /// Unknown scene space.
    UnknownSceneSpace(String),
    /// Path escapes package directory.
    PathEscapesPackage(String),
    /// Duration out of bounds.
    DurationSecondsOutOfBounds(u32),
    /// Invalid sidecar preopen.
    InvalidSidecarPreopen(String),
    /// Invalid params schema.
    InvalidParamsSchema(String),
    /// Invalid or missing cassette artwork.
    InvalidCassetteArt(String),
}

/// What a validation error says, with its text as characters.
pub enum ManifestIssue {
    /// ABI version mismatch.
    AbiVersion { found: u32, expected: u32 },
    /// Unknown scene space.
    UnknownSceneSpace(Seq<char>),
    /// Path escapes the package directory.
    PathEscapesPackage(Seq<char>),
    /// Duration out of bounds.
    DurationSecondsOutOfBounds(u32),
    /// Invalid sidecar preopen.
    InvalidSidecarPreopen(Seq<char>),
    /// Invalid params schema, with its message.
    InvalidParamsSchema(Seq<char>),
    /// Invalid or missing cassette art, with its message.
    InvalidCassetteArt(Seq<char>),
}

impl View for ManifestValidationError {
    type V = ManifestIssue;

    open spec fn view(&self) -> ManifestIssue {
        match self {
            ManifestValidationError::AbiVersion { found, expected } => ManifestIssue::AbiVersion {
                found: *found,
                expected: *expected,
            },
            ManifestValidationError::UnknownSceneSpace(s) => ManifestIssue::UnknownSceneSpace(s@),
            ManifestValidationError::PathEscapesPackage(s) => ManifestIssue::PathEscapesPackage(s@),
            ManifestValidationError::DurationSecondsOutOfBounds(d) => {
                ManifestIssue::DurationSecondsOutOfBounds(*d)
            },
            ManifestValidationError::InvalidSidecarPreopen(s) => ManifestIssue::InvalidSidecarPreopen(
                s@,
            ),
            ManifestValidationError::InvalidParamsSchema(s) => ManifestIssue::InvalidParamsSchema(
                s@,
            ),
            ManifestValidationError::InvalidCassetteArt(s) => ManifestIssue::InvalidCassetteArt(s@),
        }
    }
}

/// The text of a validation error.
pub open spec fn issue_text(i: ManifestIssue) -> Seq<char> {
    match i {
        ManifestIssue::AbiVersion { found, expected } => "abi_version "@ + decimal(found as nat)
            + " does not match engine ABI "@ + decimal(expected as nat),
        ManifestIssue::UnknownSceneSpace(s) => "unknown scene_space '"@ + s + "'"@,
        ManifestIssue::PathEscapesPackage(p) => "path '"@ + p + "' must remain within the package directory"@,
        ManifestIssue::DurationSecondsOutOfBounds(d) => "display duration "@ + decimal(d as nat)
            + "s out of bounds [1, 300]s"@,
        ManifestIssue::InvalidSidecarPreopen(s) => "invalid sidecar preopen '"@ + s + "'"@,
        ManifestIssue::InvalidParamsSchema(m) => m,
        ManifestIssue::InvalidCassetteArt(m) => m,
    }
}

/// The text of an ABI, scene space, path, duration or preopen error.
pub(crate) fn common_issue_message(
    abi: Option<(u32, u32)>,
    scene_space: Option<&str>,
    path: Option<&str>,
    duration: Option<u32>,
    preopen: Option<&str>,
) -> (r: String)
    requires
        abi is Some || scene_space is Some || path is Some || duration is Some || preopen is Some,
    ensures
        abi matches Some((f, e)) ==> r@ == issue_text(ManifestIssue::AbiVersion { found: f, expected: e }),
        abi is None ==> (scene_space matches Some(s) ==> r@ == issue_text(ManifestIssue::UnknownSceneSpace(s@))),
        abi is None && scene_space is None ==> (path matches Some(p) ==> r@ == issue_text(
            ManifestIssue::PathEscapesPackage(p@),
        )),
        abi is None && scene_space is None && path is None ==> (duration matches Some(d) ==> r@
            == issue_text(ManifestIssue::DurationSecondsOutOfBounds(d))),
        abi is None && scene_space is None && path is None && duration is None ==> (preopen matches Some(
            s,
        ) ==> r@ == issue_text(ManifestIssue::InvalidSidecarPreopen(s@))),
{
    if let Some((found, expected)) = abi {
        let f = decimal_string(found as usize);
        let e = decimal_string(expected as usize);
        return concat4("abi_version ", f.as_str(), " does not match engine ABI ", e.as_str());
    }
    if let Some(s) = scene_space {
        return concat3("unknown scene_space '", s, "'");
    }
    if let Some(p) = path {
        return concat3("path '", p, "' must remain within the package directory");
    }
    if let Some(d) = duration {
        let n = decimal_string(d as usize);
        return concat3("display duration ", n.as_str(), "s out of bounds [1, 300]s");
    }
    match preopen {
        Some(s) => concat3("invalid sidecar preopen '", s, "'"),
        None => String::new(),
    }
}

impl ManifestValidationError {
    /// The error's text.
    pub fn message(&self) -> (r: String)
        ensures
            r@ == issue_text(self@),
    {
        match self {
            ManifestValidationError::AbiVersion { found, expected } => common_issue_message(
                Some((*found, *expected)),
                None,
                None,
                None,
                None,
            ),
            ManifestValidationError::UnknownSceneSpace(s) => common_issue_message(
                None,
                Some(s.as_str()),
                None,
                None,
                None,
            ),
            ManifestValidationError::PathEscapesPackage(p) => common_issue_message(
                None,
                None,
                Some(p.as_str()),
                None,
                None,
            ),
            ManifestValidationError::DurationSecondsOutOfBounds(d) => common_issue_message(
                None,
                None,
                None,
                Some(*d),
                None,
            ),
            ManifestValidationError::InvalidSidecarPreopen(s) => common_issue_message(
                None,
                None,
                None,
                None,
                Some(s.as_str()),
            ),
            ManifestValidationError::InvalidParamsSchema(m) => owned(m.as_str()),
            ManifestValidationError::InvalidCassetteArt(m) => owned(m.as_str()),
        }
    }
}

// ── Paths ────────────────────────────────────────────────────────────────────

/// Whether a `..` segment of `p` starts at position `i`.
pub open spec fn parent_segment_at(p: Seq<char>, i: int) -> bool {
    &&& 0 <= i
    &&& i + 2 <= p.len()
    &&& (i == 0 || p[i - 1] == '/')
    &&& p[i] == '.'
    &&& p[i + 1] == '.'
    &&& (i + 2 == p.len() || p[i + 2] == '/')
}

/// Whether `p`, read as a Unix path, is rooted or climbs out through a `..` component.
pub open spec fn escapes_package(p: Seq<char>) -> bool {
    starts_with_char(p, '/') || exists|i: int| parent_segment_at(p, i)
}

/// Which paths leave a package: any rooted path does, and so does any path whose first
/// component is `..`; a single file name (no `/`) other than `..` stays inside, and so does
/// a path below a directory when the rest stays inside.
pub proof fn package_path_rule(p: Seq<char>, dir: Seq<char>)
    ensures
        escapes_package(seq!['/'] + p),
        escapes_package(seq!['.', '.']),
        escapes_package(seq!['.', '.', '/'] + p),
        (forall|i: int| 0 <= i < p.len() ==> p[i] != '/') && p != seq!['.', '.'] ==> !escapes_package(p),
        dir.len() > 0 && (forall|i: int| 0 <= i < dir.len() ==> dir[i] != '/') && dir != seq!['.', '.']
            && !escapes_package(p) ==> !escapes_package(dir + seq!['/'] + p),
{
    let a = seq!['/'] + p;
    assert(a[0] == '/');
    let b = seq!['.', '.'];
    assert(parent_segment_at(b, 0));
    let c = seq!['.', '.', '/'] + p;
    assert(c[0] == '.' && c[1] == '.' && c[2] == '/');
    assert(parent_segment_at(c, 0));
    if (forall|i: int| 0 <= i < p.len() ==> p[i] != '/') && p != seq!['.', '.'] {
        assert forall|i: int| !parent_segment_at(p, i) by {
            if parent_segment_at(p, i) {
                if i > 0 {
                    assert(p[i - 1] == '/');
                } else if i + 2 < p.len() {
                    assert(p[i + 2] == '/');
                } else {
                    assert(p =~= seq!['.', '.']);
                }
            }
        }
    }
    if dir.len() > 0 && (forall|i: int| 0 <= i < dir.len() ==> dir[i] != '/') && dir != seq!['.', '.']
        && !escapes_package(p) {
        let q = dir + seq!['/'] + p;
        let d = dir.len() as int;
        assert(q[0] == dir[0]);
        assert forall|i: int| !parent_segment_at(q, i) by {
            if parent_segment_at(q, i) {
                if i > d {
                    assert(parent_segment_at(p, i - d - 1)) by {
                        assert(q[i] == p[i - d - 1]);
                        assert(q[i + 1] == p[i - d]);
                        if i - d - 1 > 0 {
                            assert(q[i - 1] == p[i - d - 2]);
                        }
                        if i + 2 < q.len() {
                            assert(q[i + 2] == p[i - d + 1]);
                        }
                    }
                } else if i == d {
                    assert(q[d] == '/');
                } else if i + 1 == d {
                    assert(q[i + 1] == '/');
                } else {
                    assert(q[i] == dir[i] && q[i + 1] == dir[i + 1]);
                    if i > 0 {
                        assert(q[i - 1] == dir[i - 1]);
                    }
                    if i + 2 < d {
                        assert(q[i + 2] == dir[i + 2]);
                    } else {
                        assert(dir =~= seq!['.', '.']);
                    }
                }
            }
        }
    }
}

/// Whether `path` has a `..` component.
pub fn has_parent_segment(path: &str) -> (r: bool)
    ensures
        r == exists|i: int| parent_segment_at(path@, i),
{
    let cs = chars_of(path);
    let n = cs.len();
    let mut i: usize = 0;
    while n >= 2 && i <= n - 2
        invariant
            cs@ == path@,
            n == cs@.len(),
            forall|k: int| 0 <= k < i ==> !parent_segment_at(path@, k),
        decreases n - i,
    {
        if (i == 0 || cs[i - 1] == '/') && cs[i] == '.' && cs[i + 1] == '.' && (i + 2 == n || cs[i
            + 2] == '/') {
            assert(parent_segment_at(path@, i as int));
            return true;
        }
        i += 1;
    }
    assert forall|k: int| !parent_segment_at(path@, k) by {
        if 0 <= k < i {
        }
    }
    false
}

/// Whether `path` is rooted or has a `..` component.
pub fn path_escapes_package(path: &str) -> (r: bool)
    ensures
        r == escapes_package(path@),
{
    let cs = chars_of(path);
    (cs.len() > 0 && cs[0] == '/') || has_parent_segment(path)
}

/// Validates that a path is relative and does not escape the package directory.
pub fn validate_package_relative_path(path: &str) -> (r: Result<(), ManifestValidationError>)
    ensures
        r is Ok <==> !escapes_package(path@),
        r matches Err(e) ==> e@ == ManifestIssue::PathEscapesPackage(path@),
{
    if path_escapes_package(path) {
        return Err(ManifestValidationError::PathEscapesPackage(owned(path)));
    }
    Ok(())
}

/// The first path in `ps` that escapes the package, if any.
pub open spec fn first_escaping(ps: Seq<Seq<char>>) -> Option<Seq<char>>
    decreases ps.len(),
{
    if ps.len() == 0 {
        None
    } else if escapes_package(ps[0]) {
        Some(ps[0])
    } else {
        first_escaping(ps.drop_first())
    }
}

/// The path-escape issue for the first escaping path in `ps`, if any.
pub open spec fn escape_issue(ps: Seq<Seq<char>>) -> Option<ManifestIssue> {
    match first_escaping(ps) {
        Some(p) => Some(ManifestIssue::PathEscapesPackage(p)),
        None => None,
    }
}

/// The paths of texture or mesh references.
pub open spec fn asset_paths(refs: Seq<AssetRef>) -> Seq<Seq<char>> {
    refs.map_values(|a: AssetRef| a.path@)
}

/// The paths of scene references.
pub open spec fn scene_paths(refs: Seq<SceneAssetRef>) -> Seq<Seq<char>> {
    refs.map_values(|a: SceneAssetRef| a.path@)
}

/// The paths of sound references.
pub open spec fn sound_paths(refs: Seq<SoundAssetRef>) -> Seq<Seq<char>> {
    refs.map_values(|a: SoundAssetRef| a.path@)
}

proof fn lemma_first_escaping_step(ps: Seq<Seq<char>>, i: int)
    requires
        0 <= i < ps.len(),
        first_escaping(ps) == first_escaping(ps.skip(i)),
        !escapes_package(ps[i]),
    ensures
        first_escaping(ps) == first_escaping(ps.skip(i + 1)),
{
    assert(ps.skip(i).drop_first() == ps.skip(i + 1));
}

proof fn lemma_first_escaping_hit(ps: Seq<Seq<char>>, i: int)
    requires
        0 <= i < ps.len(),
        first_escaping(ps) == first_escaping(ps.skip(i)),
        escapes_package(ps[i]),
    ensures
        first_escaping(ps) == Some(ps[i]),
{
    assert(ps.skip(i)[0] == ps[i]);
}

/// The first texture or mesh path that escapes the package, if any.
pub(crate) fn first_escaping_asset_path(refs: &Vec<AssetRef>) -> (r: Option<String>)
    ensures
        match r {
            None => first_escaping(asset_paths(refs@)) is None,
            Some(p) => first_escaping(asset_paths(refs@)) == Some(p@),
        },
{
    let ghost ps = asset_paths(refs@);
    let mut i: usize = 0;
    assert(ps.skip(0) == ps);
    while i < refs.len()
        invariant
            ps == asset_paths(refs@),
            i <= refs@.len(),
            first_escaping(ps) == first_escaping(ps.skip(i as int)),
        decreases refs@.len() - i,
    {
        if path_escapes_package(refs[i].path.as_str()) {
            proof {
                lemma_first_escaping_hit(ps, i as int);
            }
            return Some(refs[i].path.clone());
        }
        proof {
            lemma_first_escaping_step(ps, i as int);
        }
        i += 1;
    }
    None
}

/// The first scene path that escapes the package, if any.
pub(crate) fn first_escaping_scene_path(refs: &Vec<SceneAssetRef>) -> (r: Option<String>)
    ensures
        match r {
            None => first_escaping(scene_paths(refs@)) is None,
            Some(p) => first_escaping(scene_paths(refs@)) == Some(p@),
        },
{
    let ghost ps = scene_paths(refs@);
    let mut i: usize = 0;
    assert(ps.skip(0) == ps);
    while i < refs.len()
        invariant
            ps == scene_paths(refs@),
            i <= refs@.len(),
            first_escaping(ps) == first_escaping(ps.skip(i as int)),
        decreases refs@.len() - i,
    {
        if path_escapes_package(refs[i].path.as_str()) {
            proof {
                lemma_first_escaping_hit(ps, i as int);
            }
            return Some(refs[i].path.clone());
        }
        proof {
            lemma_first_escaping_step(ps, i as int);
        }
        i += 1;
    }
    None
}

/// The first sound path that escapes the package, if any.
fn first_escaping_sound_path(refs: &Vec<SoundAssetRef>) -> (r: Option<String>)
    ensures
        match r {
            None => first_escaping(sound_paths(refs@)) is None,
            Some(p) => first_escaping(sound_paths(refs@)) == Some(p@),
        },
{
    let ghost ps = sound_paths(refs@);
    let mut i: usize = 0;
    assert(ps.skip(0) == ps);
    while i < refs.len()
        invariant
            ps == sound_paths(refs@),
            i <= refs@.len(),
            first_escaping(ps) == first_escaping(ps.skip(i as int)),
        decreases refs@.len() - i,
    {
        if path_escapes_package(refs[i].path.as_str()) {
            proof {
                lemma_first_escaping_hit(ps, i as int);
            }
            return Some(refs[i].path.clone());
        }
        proof {
            lemma_first_escaping_step(ps, i as int);
        }
        i += 1;
    }
    None
}

// ── Sidecar preopens ─────────────────────────────────────────────────────────

/// Whether a `host:guest` preopen names two absolute paths, split at the last `:`.
pub open spec fn valid_preopen(spec: Seq<char>) -> bool {
    let i = last_index_of(spec, ':');
    &&& i >= 0
    &&& starts_with_char(spec.take(i), '/')
    &&& starts_with_char(spec.skip(i + 1), '/')
}

/// Validates a sidecar preopen specification.
pub fn validate_sidecar_preopen(spec: &str) -> (r: Result<(), ManifestValidationError>)
    ensures
        r is Ok <==> valid_preopen(spec@),
        r matches Err(e) ==> e@ == ManifestIssue::InvalidSidecarPreopen(spec@),
{
    let cs = chars_of(spec);
    let found = find_last(&cs, ':');
    match found {
        None => Err(ManifestValidationError::InvalidSidecarPreopen(owned(spec))),
        Some(i) => {
            // Both halves must be non-empty and absolute (rooted at '/').
            if i == 0 || cs[0] != '/' || i >= cs.len() - 1 || cs[i + 1] != '/' {
                assert(!valid_preopen(spec@) || (cs@.take(i as int)[0] == cs@[0] && cs@.skip(
                    i + 1,
                )[0] == cs@[i + 1]));
                Err(ManifestValidationError::InvalidSidecarPreopen(owned(spec)))
            } else {
                assert(cs@.take(i as int)[0] == cs@[0]);
                assert(cs@.skip(i + 1)[0] == cs@[i + 1]);
                Ok(())
            }
        },
    }
}

/// The first invalid preopen in `ps`, if any.
pub open spec fn first_invalid_preopen(ps: Seq<Seq<char>>) -> Option<Seq<char>>
    decreases ps.len(),
{
    if ps.len() == 0 {
        None
    } else if !valid_preopen(ps[0]) {
        Some(ps[0])
    } else {
        first_invalid_preopen(ps.drop_first())
    }
}

/// The characters of each string in `v`.
pub open spec fn texts(v: Seq<String>) -> Seq<Seq<char>> {
    v.map_values(|s: String| s@)
}

/// The preopen issue for a sidecar configuration, if any.
pub open spec fn sidecar_issue(sidecar: ManifestSidecar) -> Option<ManifestIssue> {
    match first_invalid_preopen(texts(sidecar.wasi_preopens@)) {
        Some(p) => Some(ManifestIssue::InvalidSidecarPreopen(p)),
        None => None,
    }
}

/// The first invalid preopen of a sidecar configuration, if any.
pub(crate) fn first_invalid_preopen_of(sidecar: &ManifestSidecar) -> (r: Option<String>)
    ensures
        match r {
            None => first_invalid_preopen(texts(sidecar.wasi_preopens@)) is None,
            Some(p) => first_invalid_preopen(texts(sidecar.wasi_preopens@)) == Some(p@),
        },
{
    let ghost ps = texts(sidecar.wasi_preopens@);
    let mut i: usize = 0;
    assert(ps.skip(0) == ps);
    while i < sidecar.wasi_preopens.len()
        invariant
            ps == texts(sidecar.wasi_preopens@),
            i <= ps.len(),
            first_invalid_preopen(ps) == first_invalid_preopen(ps.skip(i as int)),
        decreases ps.len() - i,
    {
        if validate_sidecar_preopen(sidecar.wasi_preopens[i].as_str()).is_err() {
            assert(ps.skip(i as int)[0] == ps[i as int]);
            return Some(sidecar.wasi_preopens[i].clone());
        }
        assert(ps.skip(i as int).drop_first() == ps.skip(i + 1));
        i += 1;
    }
    None
}

// ── Parameter values ─────────────────────────────────────────────────────────

/// Whether a JSON value has the shape a parameter type asks for.
pub open spec fn value_fits_kind(value: JsonValue, kind: ManifestParamType) -> bool {
    match kind {
        ManifestParamType::String => value is String,
        ManifestParamType::Integer => value matches JsonValue::Number(n) && !(n is Float),
        ManifestParamType::Number => value is Number,
        ManifestParamType::Boolean => value is Bool,
        ManifestParamType::Json => true,
    }
}

/// Whether `value` fits `kind`.
pub fn value_fits(value: &JsonValue, kind: ManifestParamType) -> (r: bool)
    ensures
        r == value_fits_kind(*value, kind),
{
    match kind {
        ManifestParamType::String => matches!(value, JsonValue::String(_)),
        ManifestParamType::Integer => match value {
            JsonValue::Number(JsonNumber::Float(_)) => false,
            JsonValue::Number(_) => true,
            _ => false,
        },
        ManifestParamType::Number => matches!(value, JsonValue::Number(_)),
        ManifestParamType::Boolean => matches!(value, JsonValue::Bool(_)),
        ManifestParamType::Json => true,
    }
}

/// The message for a value at `label` that does not fit `kind`.
pub open spec fn kind_mismatch_message(label: Seq<char>, kind: ManifestParamType) -> Seq<char> {
    label + " does not match field type '"@ + param_type_name(kind) + "'"@
}

/// Checks that `value` fits `kind`; `label` names the value in the message.
pub fn validate_param_value(value: &JsonValue, kind: ManifestParamType, label: &str) -> (r: Result<
    (),
    ManifestValidationError,
>)
    ensures
        r is Ok <==> value_fits_kind(*value, kind),
        r matches Err(e) ==> e@ == ManifestIssue::InvalidParamsSchema(
            kind_mismatch_message(label@, kind),
        ),
{
    if value_fits(value, kind) {
        Ok(())
    } else {
        Err(
            ManifestValidationError::InvalidParamsSchema(
                concat4(label, " does not match field type '", kind.as_str(), "'"),
            ),
        )
    }
}

// ── Parameter schema ─────────────────────────────────────────────────────────

/// `manifest.params.fields['<key>']`, the prefix of per-field messages.
pub open spec fn field_path(key: Seq<char>) -> Seq<char> {
    "manifest.params.fields['"@ + key + "']"@
}

/// `<field>.options[<index>]`.
pub open spec fn option_path(key: Seq<char>, index: nat) -> Seq<char> {
    field_path(key) + ".options["@ + decimal(index) + "]"@
}

/// Whether `o` is `Some` text that is blank.
pub open spec fn blank_option(o: Option<String>) -> bool {
    o matches Some(s) && is_blank(s@)
}

/// Whether some option in `opts` matches `v` (by `json_match` with `numeric`).
pub open spec fn option_matching(opts: Seq<ManifestParamOption>, v: JsonValue, numeric: bool) -> bool {
    exists|k: int| 0 <= k < opts.len() && json_match(#[trigger] opts[k].value, v, numeric)
}

/// Whether some option in `opts` equals `v` as a `serde_json` value (`==`).
pub open spec fn value_among(opts: Seq<ManifestParamOption>, v: JsonValue) -> bool {
    option_matching(opts, v, true)
}

/// Whether some option in `opts` writes out as the same JSON text as `v`.
pub open spec fn text_among(opts: Seq<ManifestParamOption>, v: JsonValue) -> bool {
    option_matching(opts, v, false)
}

/// The message for option `o` at position `prior.len()`, given the options before it.
pub open spec fn option_issue(
    key: Seq<char>,
    kind: ManifestParamType,
    prior: Seq<ManifestParamOption>,
    o: ManifestParamOption,
) -> Option<Seq<char>> {
    let path = option_path(key, prior.len());
    if !value_fits_kind(o.value, kind) {
        Some(kind_mismatch_message(path + ".value"@, kind))
    } else if blank_option(o.label) {
        Some(path + ".label must not be blank"@)
    } else if text_among(prior, o.value) {
        Some(field_path(key) + ".options contains duplicate values"@)
    } else {
        None
    }
}

/// The message for the first bad option in `opts`, if any.
pub open spec fn options_issue(
    key: Seq<char>,
    kind: ManifestParamType,
    opts: Seq<ManifestParamOption>,
) -> Option<Seq<char>>
    decreases opts.len(),
{
    if opts.len() == 0 {
        None
    } else {
        match options_issue(key, kind, opts.drop_last()) {
            Some(m) => Some(m),
            None => option_issue(key, kind, opts.drop_last(), opts.last()),
        }
    }
}

/// The message for field `f`, given the trimmed keys of the fields before it.
pub open spec fn field_issue(f: ManifestParamField, seen: Seq<Seq<char>>) -> Option<Seq<char>> {
    let key = trimmed(f.key@);
    if key.len() == 0 {
        Some("manifest.params.fields[].key must be a non-empty string"@)
    } else if seen.contains(key) {
        Some("manifest.params.fields contains duplicate key '"@ + key + "'"@)
    } else if blank_option(f.label) {
        Some(field_path(key) + ".label must not be blank"@)
    } else if blank_option(f.help) {
        Some(field_path(key) + ".help must not be blank"@)
    } else if f.default matches Some(d) && !value_fits_kind(d, f.kind) {
        Some(kind_mismatch_message(field_path(key) + ".default"@, f.kind))
    } else if f.kind is Json && f.options@.len() > 0 {
        Some(field_path(key) + ".options are not supported for json fields"@)
    } else {
        match options_issue(key, f.kind, f.options@) {
            Some(m) => Some(m),
            None => if f.default matches Some(d) && f.options@.len() > 0 && !value_among(
                f.options@,
                d,
            ) {
                Some(field_path(key) + ".default must match one of the declared options"@)
            } else {
                None
            },
        }
    }
}

/// The trimmed keys of `fields`.
pub open spec fn field_keys(fields: Seq<ManifestParamField>) -> Seq<Seq<char>> {
    fields.map_values(|f: ManifestParamField| trimmed(f.key@))
}

/// The message for the first bad field in `fields`, if any.
pub open spec fn fields_issue(fields: Seq<ManifestParamField>) -> Option<Seq<char>>
    decreases fields.len(),
{
    if fields.len() == 0 {
        None
    } else {
        match fields_issue(fields.drop_last()) {
            Some(m) => Some(m),
            None => field_issue(fields.last(), field_keys(fields.drop_last())),
        }
    }
}

/// The schema issue of a params schema, if any.
pub open spec fn schema_issue(schema: ManifestParamsSchema) -> Option<ManifestIssue> {
    match fields_issue(schema.fields@) {
        Some(m) => Some(ManifestIssue::InvalidParamsSchema(m)),
        None => None,
    }
}

proof fn lemma_options_issue_extends(
    key: Seq<char>,
    kind: ManifestParamType,
    opts: Seq<ManifestParamOption>,
    n: int,
)
    requires
        0 <= n <= opts.len(),
        options_issue(key, kind, opts.take(n)) is Some,
    ensures
        options_issue(key, kind, opts) == options_issue(key, kind, opts.take(n)),
    decreases opts.len() - n,
{
    if n < opts.len() {
        assert(opts.drop_last().take(n) == opts.take(n));
        lemma_options_issue_extends(key, kind, opts.drop_last(), n);
    } else {
        assert(opts.take(n) == opts);
    }
}

proof fn lemma_fields_issue_extends(fields: Seq<ManifestParamField>, n: int)
    requires
        0 <= n <= fields.len(),
        fields_issue(fields.take(n)) is Some,
    ensures
        fields_issue(fields) == fields_issue(fields.take(n)),
    decreases fields.len() - n,
{
    if n < fields.len() {
        assert(fields.drop_last().take(n) == fields.take(n));
        lemma_fields_issue_extends(fields.drop_last(), n);
    } else {
        assert(fields.take(n) == fields);
    }
}

/// Whether one of the first `upto` options of `opts` matches `v` (by `json_match` with
/// `numeric`).
pub(crate) fn value_listed(opts: &Vec<ManifestParamOption>, upto: usize, v: &JsonValue, numeric: bool) -> (r: bool)
    requires
        upto <= opts@.len(),
    ensures
        r == option_matching(opts@.take(upto as int), *v, numeric),
{
    let mut k: usize = 0;
    while k < upto
        invariant
            upto <= opts@.len(),
            k <= upto,
            forall|j: int| 0 <= j < k ==> !json_match(#[trigger] opts@[j].value, *v, numeric),
        decreases upto - k,
    {
        let hit = if numeric {
            opts[k].value.equals(v)
        } else {
            opts[k].value.same_as(v)
        };
        if hit {
            assert(opts@.take(upto as int)[k as int] == opts@[k as int]);
            return true;
        }
        k += 1;
    }
    assert forall|j: int| 0 <= j < upto implies !json_match(
        #[trigger] opts@.take(upto as int)[j].value,
        *v,
        numeric,
    ) by {
        assert(opts@.take(upto as int)[j] == opts@[j]);
    }
    false
}

/// Checks the options of a field whose trimmed key is `key`.
fn check_options(key: &str, kind: ManifestParamType, opts: &Vec<ManifestParamOption>) -> (r:
    Result<(), ManifestValidationError>)
    ensures
        match r {
            Ok(()) => options_issue(key@, kind, opts@) is None,
            Err(e) => options_issue(key@, kind, opts@) matches Some(m)
                && e@ == ManifestIssue::InvalidParamsSchema(m),
        },
{
    let mut j: usize = 0;
    while j < opts.len()
        invariant
            j <= opts@.len(),
            options_issue(key@, kind, opts@.take(j as int)) is None,
        decreases opts@.len() - j,
    {
        let o = &opts[j];
        let ghost prior = opts@.take(j as int);
        assert(opts@.take(j + 1).drop_last() == prior);
        assert(opts@.take(j + 1).last() == *o);
        let path = concat5(
            "manifest.params.fields['",
            key,
            "']",
            ".options[",
            decimal_string(j).as_str(),
        );
        let path = concat2(path.as_str(), "]");
        assert(path@ == option_path(key@, prior.len()));
        let vpath = concat2(path.as_str(), ".value");
        if let Err(e) = validate_param_value(&o.value, kind, vpath.as_str()) {
            proof {
                lemma_options_issue_extends(key@, kind, opts@, j + 1);
            }
            return Err(e);
        }
        if let Some(label) = &o.label {
            if blank(label.as_str()) {
                proof {
                    lemma_options_issue_extends(key@, kind, opts@, j + 1);
                }
                return Err(
                    ManifestValidationError::InvalidParamsSchema(
                        concat2(path.as_str(), ".label must not be blank"),
                    ),
                );
            }
        }
        if value_listed(opts, j, &o.value, false) {
            proof {
                lemma_options_issue_extends(key@, kind, opts@, j + 1);
            }
            return Err(
                ManifestValidationError::InvalidParamsSchema(
                    concat4(
                        "manifest.params.fields['",
                        key,
                        "']",
                        ".options contains duplicate values",
                    ),
                ),
            );
        }
        j += 1;
    }
    assert(opts@.take(opts@.len() as int) == opts@);
    Ok(())
}

/// Whether `key` is among the first `upto` strings of `seen`.
fn key_seen(seen: &Vec<String>, key: &str) -> (r: bool)
    ensures
        r == texts(seen@).contains(key@),
{
    let mut k: usize = 0;
    while k < seen.len()
        invariant
            k <= seen@.len(),
            forall|j: int| 0 <= j < k ==> seen@[j]@ != key@,
        decreases seen@.len() - k,
    {
        if same_text(seen[k].as_str(), key) {
            assert(texts(seen@)[k as int] == key@);
            return true;
        }
        k += 1;
    }
    assert forall|j: int| 0 <= j < texts(seen@).len() implies texts(seen@)[j] != key@ by {
        assert(texts(seen@)[j] == seen@[j]@);
    }
    false
}

/// Checks one field, given the trimmed keys of the fields before it.
fn check_field(f: &ManifestParamField, seen: &Vec<String>) -> (r: Result<
    (),
    ManifestValidationError,
>)
    ensures
        match r {
            Ok(()) => field_issue(*f, texts(seen@)) is None,
            Err(e) => field_issue(*f, texts(seen@)) matches Some(m)
                && e@ == ManifestIssue::InvalidParamsSchema(m),
        },
{
    let key = trim(f.key.as_str());
    let k = key.as_str();
    if text_is_empty(k) {
        return Err(
            ManifestValidationError::InvalidParamsSchema(
                owned("manifest.params.fields[].key must be a non-empty string"),
            ),
        );
    }
    assert(key@.len() > 0);
    if key_seen(seen, k) {
        return Err(
            ManifestValidationError::InvalidParamsSchema(
                concat3("manifest.params.fields contains duplicate key '", k, "'"),
            ),
        );
    }
    if let Some(label) = &f.label {
        if blank(label.as_str()) {
            return Err(
                ManifestValidationError::InvalidParamsSchema(
                    concat4("manifest.params.fields['", k, "']", ".label must not be blank"),
                ),
            );
        }
    }
    if let Some(help) = &f.help {
        if blank(help.as_str()) {
            return Err(
                ManifestValidationError::InvalidParamsSchema(
                    concat4("manifest.params.fields['", k, "']", ".help must not be blank"),
                ),
            );
        }
    }
    if let Some(default) = &f.default {
        let label = concat4("manifest.params.fields['", k, "']", ".default");
        if let Err(e) = validate_param_value(default, f.kind, label.as_str()) {
            return Err(e);
        }
    }
    if matches!(f.kind, ManifestParamType::Json) && f.options.len() > 0 {
        return Err(
            ManifestValidationError::InvalidParamsSchema(
                concat4(
                    "manifest.params.fields['",
                    k,
                    "']",
                    ".options are not supported for json fields",
                ),
            ),
        );
    }
    if let Err(e) = check_options(k, f.kind, &f.options) {
        return Err(e);
    }
    if let Some(default) = &f.default {
        if f.options.len() > 0 && !value_listed(&f.options, f.options.len(), default, true) {
            assert(f.options@.take(f.options@.len() as int) == f.options@);
            return Err(
                ManifestValidationError::InvalidParamsSchema(
                    concat4(
                        "manifest.params.fields['",
                        k,
                        "']",
                        ".default must match one of the declared options",
                    ),
                ),
            );
        }
        assert(f.options@.take(f.options@.len() as int) == f.options@);
    }
    Ok(())
}

/// Validates the params schema: non-empty unique keys, no blank labels or help,
/// defaults and options that fit the declared type, no duplicate options, and
/// a default that is one of the options when options are declared.
pub fn validate_params_schema(schema: &ManifestParamsSchema) -> (r: Result<
    (),
    ManifestValidationError,
>)
    ensures
        match r {
            Ok(()) => schema_issue(*schema) is None,
            Err(e) => schema_issue(*schema) == Some(e@),
        },
{
    let fields = &schema.fields;
    let mut seen: Vec<String> = Vec::new();
    let mut i: usize = 0;
    while i < fields.len()
        invariant
            *fields == schema.fields,
            i <= fields@.len(),
            seen@.len() == i,
            texts(seen@) == field_keys(fields@.take(i as int)),
            fields_issue(fields@.take(i as int)) is None,
        decreases fields@.len() - i,
    {
        let f = &fields[i];
        assert(fields@.take(i + 1).drop_last() == fields@.take(i as int));
        assert(fields@.take(i + 1).last() == *f);
        if let Err(e) = check_field(f, &seen) {
            proof {
                let fi = field_issue(*f, texts(seen@));
                assert(fields@.take(i + 1).drop_last() == fields@.take(i as int));
                assert(field_keys(fields@.take(i + 1).drop_last()) == texts(seen@));
                assert(fields_issue(fields@.take(i + 1)) == fi);
                lemma_fields_issue_extends(fields@, i + 1);
                assert(fields_issue(fields@) == fi);
            }
            return Err(e);
        }
        let key = trim(f.key.as_str());
        let ghost old_seen = seen@;
        let ghost kv = key@;
        seen.push(key);
        proof {
            assert(seen@[i as int]@ == kv);
            assert(fields@.take(i + 1)[i as int] == *f);
            assert(texts(seen@).len() == i + 1);
            assert(field_keys(fields@.take(i + 1)).len() == i + 1);
            assert forall|k: int| 0 <= k < i + 1 implies texts(seen@)[k] == field_keys(
                fields@.take(i + 1),
            )[k] by {
                if k < i {
                    assert(texts(old_seen)[k] == field_keys(fields@.take(i as int))[k]);
                    assert(fields@.take(i + 1)[k] == fields@.take(i as int)[k]);
                    assert(seen@[k] == old_seen[k]);
                }
            }
            assert(texts(seen@) =~= field_keys(fields@.take(i + 1)));
        }
        i += 1;
    }
    assert(fields@.take(fields@.len() as int) == fields@);
    Ok(())
}

// ── Cassette art ─────────────────────────────────────────────────────────────

/// The issue with one artwork reference, named `label` in messages.
pub open spec fn art_ref_issue(label: Seq<char>, a: ArtAssetRef) -> Option<ManifestIssue> {
    if is_blank(a.path@) {
        Some(ManifestIssue::InvalidCassetteArt(label + ".path must be a non-empty string"@))
    } else if escapes_package(a.path@) {
        Some(ManifestIssue::PathEscapesPackage(a.path@))
    } else if blank_option(a.label) {
        Some(ManifestIssue::InvalidCassetteArt(label + ".label must not be blank"@))
    } else {
        None
    }
}

/// The cassette-art issue of a manifest, if any: the art is required.
pub open spec fn cassette_issue(m: SlideManifest) -> Option<ManifestIssue> {
    let required = ManifestIssue::InvalidCassetteArt("manifest.assets.art is required"@);
    match m.assets {
        None => Some(required),
        Some(assets) => match assets.art {
            None => Some(required),
            Some(art) => match art_ref_issue("manifest.assets.art.j_card"@, art.j_card) {
                Some(i) => Some(i),
                None => match art_ref_issue("manifest.assets.art.side_a_label"@, art.side_a_label) {
                    Some(i) => Some(i),
                    None => art_ref_issue("manifest.assets.art.side_b_label"@, art.side_b_label),
                },
            },
        },
    }
}

/// Validates one artwork reference.
pub fn validate_art_asset_ref(label: &str, asset: &ArtAssetRef) -> (r: Result<
    (),
    ManifestValidationError,
>)
    ensures
        match r {
            Ok(()) => art_ref_issue(label@, *asset) is None,
            Err(e) => art_ref_issue(label@, *asset) == Some(e@),
        },
{
    if blank(asset.path.as_str()) {
        return Err(
            ManifestValidationError::InvalidCassetteArt(
                concat2(label, ".path must be a non-empty string"),
            ),
        );
    }
    if let Err(e) = validate_package_relative_path(asset.path.as_str()) {
        return Err(e);
    }
    if let Some(label_text) = &asset.label {
        if blank(label_text.as_str()) {
            return Err(
                ManifestValidationError::InvalidCassetteArt(
                    concat2(label, ".label must not be blank"),
                ),
            );
        }
    }
    Ok(())
}

/// Validates the required cassette artwork of a manifest.
pub fn validate_cassette_art(manifest: &SlideManifest) -> (r: Result<(), ManifestValidationError>)
    ensures
        match r {
            Ok(()) => cassette_issue(*manifest) is None,
            Err(e) => cassette_issue(*manifest) == Some(e@),
        },
{
    let assets = match &manifest.assets {
        Some(a) => a,
        None => {
            return Err(
                ManifestValidationError::InvalidCassetteArt(
                    owned("manifest.assets.art is required"),
                ),
            )
        },
    };
    let art = match &assets.art {
        Some(a) => a,
        None => {
            return Err(
                ManifestValidationError::InvalidCassetteArt(
                    owned("manifest.assets.art is required"),
                ),
            )
        },
    };
    validate_art_asset_ref("manifest.assets.art.j_card", &art.j_card)?;
    validate_art_asset_ref("manifest.assets.art.side_a_label", &art.side_a_label)?;
    validate_art_asset_ref("manifest.assets.art.side_b_label", &art.side_b_label)?;
    Ok(())
}

// ── The whole manifest ───────────────────────────────────────────────────────

/// The first of two optional issues.
pub open spec fn either(a: Option<ManifestIssue>, b: Option<ManifestIssue>) -> Option<
    ManifestIssue,
> {
    if a is Some {
        a
    } else {
        b
    }
}

/// The display duration a manifest declares, if any.
pub open spec fn declared_duration(m: SlideManifest) -> Option<u32> {
    match m.display {
        Some(d) => d.duration_seconds,
        None => None,
    }
}

/// The issue with the asset paths of a manifest, in the order textures, meshes, scenes, sounds.
pub open spec fn assets_issue(m: SlideManifest) -> Option<ManifestIssue> {
    match m.assets {
        None => None,
        Some(a) => either(
            escape_issue(asset_paths(a.textures@)),
            either(
                escape_issue(asset_paths(a.meshes@)),
                either(escape_issue(scene_paths(a.scenes@)), escape_issue(sound_paths(a.sounds@))),
            ),
        ),
    }
}

/// The issue with the shader paths of a manifest, vertex first.
pub open spec fn shaders_issue(m: SlideManifest) -> Option<ManifestIssue> {
    match m.shaders {
        None => None,
        Some(s) => either(
            match s.vertex {
                Some(v) if escapes_package(v@) => Some(ManifestIssue::PathEscapesPackage(v@)),
                _ => None,
            },
            match s.fragment {
                Some(f) if escapes_package(f@) => Some(ManifestIssue::PathEscapesPackage(f@)),
                _ => None,
            },
        ),
    }
}

/// The first issue `validate` reports for a manifest, if any, in the order the checks run.
pub open spec fn manifest_issue(m: SlideManifest, abi_version: u32) -> Option<ManifestIssue> {
    let abi = match m.abi_version {
        Some(found) if found != abi_version => Some(
            ManifestIssue::AbiVersion { found, expected: abi_version },
        ),
        _ => None,
    };
    let scene = match m.scene_space {
        Some(s) if s@ != "screen_2d"@ && s@ != "world_3d"@ => Some(
            ManifestIssue::UnknownSceneSpace(s@),
        ),
        _ => None,
    };
    let duration = match declared_duration(m) {
        Some(d) if d < MIN_DISPLAY_DURATION_SECONDS || d > MAX_DISPLAY_DURATION_SECONDS => Some(
            ManifestIssue::DurationSecondsOutOfBounds(d),
        ),
        _ => None,
    };
    let sidecar = match m.sidecar {
        Some(s) => sidecar_issue(s),
        None => None,
    };
    let params = match m.params {
        Some(p) => schema_issue(p),
        None => None,
    };
    either(
        abi,
        either(
            scene,
            either(
                assets_issue(m),
                either(
                    shaders_issue(m),
                    either(duration, either(sidecar, either(params, cassette_issue(m)))),
                ),
            ),
        ),
    )
}

/// The transition a kind name selects; unknown names fall back to `Crossfade`.
pub open spec fn transition_named(kind: Seq<char>) -> TransitionKind {
    if kind == "crossfade"@ {
        TransitionKind::Crossfade
    } else if kind == "wipe_left"@ {
        TransitionKind::WipeLeft
    } else if kind == "wipe_down"@ {
        TransitionKind::WipeDown
    } else if kind == "dissolve"@ {
        TransitionKind::Dissolve
    } else if kind == "cut"@ {
        TransitionKind::Cut
    } else {
        TransitionKind::Crossfade
    }
}

/// Parses a transition kind name ("crossfade", "wipe_left", "wipe_down",
/// "dissolve", "cut"); any other name gives the default, `Crossfade`.
pub fn parse_transition_kind(kind: &str) -> (r: TransitionKind)
    ensures
        r == transition_named(kind@),
{
    if same_text(kind, "crossfade") {
        TransitionKind::Crossfade
    } else if same_text(kind, "wipe_left") {
        TransitionKind::WipeLeft
    } else if same_text(kind, "wipe_down") {
        TransitionKind::WipeDown
    } else if same_text(kind, "dissolve") {
        TransitionKind::Dissolve
    } else if same_text(kind, "cut") {
        TransitionKind::Cut
    } else {
        TransitionKind::Crossfade
    }
}

/// The transition named by an optional kind string.
pub open spec fn transition_of(name: Option<String>) -> Option<TransitionKind> {
    match name {
        Some(s) => Some(transition_named(s@)),
        None => None,
    }
}

/// The index of the first scene whose id is `id`, or -1.
pub open spec fn scene_index_with_id(scenes: Seq<SceneAssetRef>, id: Seq<char>) -> int
    decreases scenes.len(),
{
    if scenes.len() == 0 {
        -1
    } else if scenes[0].id matches Some(s) && s@ == id {
        0
    } else {
        let r = scene_index_with_id(scenes.drop_first(), id);
        if r < 0 {
            -1
        } else {
            r + 1
        }
    }
}

impl SlideManifest {
    /// Validates the manifest against the engine's ABI version.
    ///
    /// Checks, in order: the ABI version, the scene space, asset paths,
    /// shader paths, the display duration, sidecar preopens, the params
    /// schema and the required cassette art. The first failure is returned.
    pub fn validate(&self, abi_version: u32) -> (r: Result<(), ManifestValidationError>)
        ensures
            match r {
                Ok(()) => manifest_issue(*self, abi_version) is None,
                Err(e) => manifest_issue(*self, abi_version) == Some(e@),
            },
    {
        if let Some(found) = self.abi_version {
            if found != abi_version {
                return Err(ManifestValidationError::AbiVersion { found, expected: abi_version });
            }
        }
        if let Some(scene_space) = &self.scene_space {
            if !same_text(scene_space.as_str(), "screen_2d") && !same_text(
                scene_space.as_str(),
                "world_3d",
            ) {
                return Err(ManifestValidationError::UnknownSceneSpace(scene_space.clone()));
            }
        }
        if let Some(assets) = &self.assets {
            if let Some(p) = first_escaping_asset_path(&assets.textures) {
                return Err(ManifestValidationError::PathEscapesPackage(p));
            }
            if let Some(p) = first_escaping_asset_path(&assets.meshes) {
                return Err(ManifestValidationError::PathEscapesPackage(p));
            }
            if let Some(p) = first_escaping_scene_path(&assets.scenes) {
                return Err(ManifestValidationError::PathEscapesPackage(p));
            }
            if let Some(p) = first_escaping_sound_path(&assets.sounds) {
                return Err(ManifestValidationError::PathEscapesPackage(p));
            }
        }
        if let Some(shaders) = &self.shaders {
            if let Some(vertex) = &shaders.vertex {
                validate_package_relative_path(vertex.as_str())?;
            }
            if let Some(fragment) = &shaders.fragment {
                validate_package_relative_path(fragment.as_str())?;
            }
        }
        if let Some(duration_seconds) = self.display_duration_seconds() {
            if duration_seconds < MIN_DISPLAY_DURATION_SECONDS || duration_seconds
                > MAX_DISPLAY_DURATION_SECONDS {
                return Err(ManifestValidationError::DurationSecondsOutOfBounds(duration_seconds));
            }
        }
        if let Some(sidecar) = &self.sidecar {
            if let Some(p) = first_invalid_preopen_of(sidecar) {
                return Err(ManifestValidationError::InvalidSidecarPreopen(p));
            }
        }
        if let Some(params) = &self.params {
            validate_params_schema(params)?;
        }
        validate_cassette_art(self)?;
        Ok(())
    }

    /// Returns the transition-in kind declared in the display section.
    pub fn transition_in_kind(&self) -> (r: Option<TransitionKind>)
        ensures
            r == match self.display {
                Some(d) => transition_of(d.transition_in),
                None => None,
            },
    {
        match &self.display {
            Some(display) => match &display.transition_in {
                Some(name) => Some(parse_transition_kind(name.as_str())),
                None => None,
            },
            None => None,
        }
    }

    /// Returns the transition-out kind declared in the display section.
    pub fn transition_out_kind(&self) -> (r: Option<TransitionKind>)
        ensures
            r == match self.display {
                Some(d) => transition_of(d.transition_out),
                None => None,
            },
    {
        match &self.display {
            Some(display) => match &display.transition_out {
                Some(name) => Some(parse_transition_kind(name.as_str())),
                None => None,
            },
            None => None,
        }
    }

    /// Returns the display duration in seconds.
    pub fn display_duration_seconds(&self) -> (r: Option<u32>)
        ensures
            r == declared_duration(*self),
    {
        match &self.display {
            Some(display) => display.duration_seconds,
            None => None,
        }
    }

    /// Returns the scene with the requested id, or the first scene when no id is given.
    #[verifier::loop_isolation(false)]
    pub fn scene_asset(&self, requested_id: Option<&str>) -> (r: Option<&SceneAssetRef>)
        ensures
            self.assets is None ==> r is None,
            self.assets matches Some(a) ==> match requested_id {
                Some(id) => {
                    let i = scene_index_with_id(a.scenes@, id@);
                    &&& (r is None <==> i < 0)
                    &&& (r matches Some(s) ==> 0 <= i && *s == a.scenes@[i])
                },
                None => {
                    &&& (r is None <==> a.scenes@.len() == 0)
                    &&& (r matches Some(s) ==> *s == a.scenes@[0])
                },
            },
    {
        let assets = match &self.assets {
            Some(a) => a,
            None => return None,
        };
        match requested_id {
            None => {
                if assets.scenes.len() == 0 {
                    None
                } else {
                    Some(&assets.scenes[0])
                }
            },
            Some(id) => {
                let scenes = &assets.scenes;
                let mut i: usize = 0;
                assert(scenes@.skip(0) == scenes@);
                while i < scenes.len()
                    invariant
                        i <= scenes@.len(),
                        scene_index_with_id(scenes@, id@) == if scene_index_with_id(
                            scenes@.skip(i as int),
                            id@,
                        ) < 0 {
                            -1
                        } else {
                            scene_index_with_id(scenes@.skip(i as int), id@) + i
                        },
                    decreases scenes@.len() - i,
                {
                    assert(scenes@.skip(i as int)[0] == scenes@[i as int]);
                    assert(scenes@.skip(i as int).drop_first() == scenes@.skip(i + 1));
                    if let Some(sid) = &scenes[i].id {
                        if same_text(sid.as_str(), id) {
                            return Some(&scenes[i]);
                        }
                    }
                    i += 1;
                }
                None
            },
        }
    }
}


// ── Laws ─────────────────────────────────────────────────────────────────────

/// When no path of `ps` is reported as escaping, none of them escapes.
pub(crate) proof fn no_first_escaping(ps: Seq<Seq<char>>)
    requires
        first_escaping(ps) is None,
    ensures
        forall|i: int| 0 <= i < ps.len() ==> !escapes_package(#[trigger] ps[i]),
    decreases ps.len(),
{
    if ps.len() > 0 {
        no_first_escaping(ps.drop_first());
        assert forall|i: int| 0 <= i < ps.len() implies !escapes_package(#[trigger] ps[i]) by {
            if i > 0 {
                assert(ps[i] == ps.drop_first()[i - 1]);
            }
        }
    }
}

/// A manifest that validates against `abi_version` keeps every asset inside its package:
/// no texture, mesh, scene or sound path, and no vertex or fragment shader path, is rooted
/// or climbs out through a `..` component. It also declares no other ABI version, no scene
/// space but `screen_2d` or `world_3d`, no display duration outside 1 to 300 seconds, and a
/// params schema without an issue (see `valid_schema_rule`).
pub proof fn valid_manifest_stays_in_package(m: SlideManifest, abi_version: u32)
    requires
        manifest_issue(m, abi_version) is None,
    ensures
        m.abi_version matches Some(found) ==> found == abi_version,
        m.assets matches Some(a) ==> {
            &&& forall|i: int| 0 <= i < a.textures@.len() ==> !escapes_package(#[trigger] a.textures@[i].path@)
            &&& forall|i: int| 0 <= i < a.meshes@.len() ==> !escapes_package(#[trigger] a.meshes@[i].path@)
            &&& forall|i: int| 0 <= i < a.scenes@.len() ==> !escapes_package(#[trigger] a.scenes@[i].path@)
            &&& forall|i: int| 0 <= i < a.sounds@.len() ==> !escapes_package(#[trigger] a.sounds@[i].path@)
        },
        m.shaders matches Some(sh) ==> {
            &&& sh.vertex matches Some(v) ==> !escapes_package(v@)
            &&& sh.fragment matches Some(f) ==> !escapes_package(f@)
        },
        m.display matches Some(d) ==> (d.duration_seconds matches Some(secs) ==> 1 <= secs <= 300),
        m.scene_space matches Some(sp) ==> (sp@ == "screen_2d"@ || sp@ == "world_3d"@),
        m.params matches Some(ps) ==> schema_issue(ps) is None,
{
    if let Some(a) = m.assets {
        let t = asset_paths(a.textures@);
        let me = asset_paths(a.meshes@);
        let sc = scene_paths(a.scenes@);
        let so = sound_paths(a.sounds@);
        no_first_escaping(t);
        no_first_escaping(me);
        no_first_escaping(sc);
        no_first_escaping(so);
        assert forall|i: int| 0 <= i < a.textures@.len() implies !escapes_package(#[trigger] a.textures@[i].path@) by {
            assert(t[i] == a.textures@[i].path@);
        }
        assert forall|i: int| 0 <= i < a.meshes@.len() implies !escapes_package(#[trigger] a.meshes@[i].path@) by {
            assert(me[i] == a.meshes@[i].path@);
        }
        assert forall|i: int| 0 <= i < a.scenes@.len() implies !escapes_package(#[trigger] a.scenes@[i].path@) by {
            assert(sc[i] == a.scenes@[i].path@);
        }
        assert forall|i: int| 0 <= i < a.sounds@.len() implies !escapes_package(#[trigger] a.sounds@[i].path@) by {
            assert(so[i] == a.sounds@[i].path@);
        }
    }
}


/// Options without an issue each fit the kind, have no blank label, and no two of them
/// write out as the same JSON.
proof fn options_rule(key: Seq<char>, kind: ManifestParamType, opts: Seq<ManifestParamOption>)
    requires
        options_issue(key, kind, opts) is None,
    ensures
        forall|i: int| 0 <= i < opts.len() ==> value_fits_kind(#[trigger] opts[i].value, kind),
        forall|i: int| 0 <= i < opts.len() ==> !blank_option(#[trigger] opts[i].label),
        forall|i: int, j: int|
            0 <= i < j < opts.len() ==> !json_match(#[trigger] opts[i].value, #[trigger] opts[j].value, false),
    decreases opts.len(),
{
    if opts.len() > 0 {
        let init = opts.drop_last();
        options_rule(key, kind, init);
        let last = opts.last();
        assert forall|i: int, j: int|
            0 <= i < j < opts.len() implies !json_match(#[trigger] opts[i].value, #[trigger] opts[j].value, false) by {
            if j < opts.len() - 1 {
                assert(opts[i] == init[i] && opts[j] == init[j]);
            } else {
                assert(opts[i] == init[i]);
                assert(!text_among(init, last.value));
            }
        }
        assert forall|i: int| 0 <= i < opts.len() implies value_fits_kind(#[trigger] opts[i].value, kind) by {
            if i < opts.len() - 1 {
                assert(opts[i] == init[i]);
            }
        }
        assert forall|i: int| 0 <= i < opts.len() implies !blank_option(#[trigger] opts[i].label) by {
            if i < opts.len() - 1 {
                assert(opts[i] == init[i]);
            }
        }
    }
}

/// What a field without an issue satisfies.
pub open spec fn field_sound(f: ManifestParamField) -> bool {
    &&& trimmed(f.key@).len() > 0
    &&& !blank_option(f.label)
    &&& !blank_option(f.help)
    &&& (f.default matches Some(d) ==> value_fits_kind(d, f.kind))
    &&& (f.kind is Json ==> f.options@.len() == 0)
    &&& forall|i: int| 0 <= i < f.options@.len() ==> value_fits_kind(#[trigger] f.options@[i].value, f.kind)
    &&& forall|i: int| 0 <= i < f.options@.len() ==> !blank_option(#[trigger] f.options@[i].label)
    &&& forall|i: int, j: int|
        0 <= i < j < f.options@.len() ==> !json_match(
            #[trigger] f.options@[i].value,
            #[trigger] f.options@[j].value,
            false,
        )
    &&& (f.default is Some && f.options@.len() > 0 ==> exists|i: int|
        0 <= i < f.options@.len() && json_match(#[trigger] f.options@[i].value, f.default->0, true))
}

proof fn fields_rule(fields: Seq<ManifestParamField>)
    requires
        fields_issue(fields) is None,
    ensures
        forall|i: int| 0 <= i < fields.len() ==> field_sound(#[trigger] fields[i]),
        forall|i: int, j: int|
            0 <= i < j < fields.len() ==> trimmed(#[trigger] fields[i].key@) != trimmed(
                #[trigger] fields[j].key@,
            ),
    decreases fields.len(),
{
    if fields.len() > 0 {
        let init = fields.drop_last();
        fields_rule(init);
        let f = fields.last();
        let key = trimmed(f.key@);
        assert(field_issue(f, field_keys(init)) is None);
        options_rule(key, f.kind, f.options@);
        assert(field_sound(f));
        assert forall|i: int| 0 <= i < fields.len() implies field_sound(#[trigger] fields[i]) by {
            if i < fields.len() - 1 {
                assert(fields[i] == init[i]);
            }
        }
        assert forall|i: int, j: int| 0 <= i < j < fields.len() implies trimmed(#[trigger] fields[i].key@)
            != trimmed(#[trigger] fields[j].key@) by {
            assert(fields[i] == init[i]);
            if j < fields.len() - 1 {
                assert(fields[j] == init[j]);
            } else {
                assert(field_keys(init)[i] == trimmed(init[i].key@));
                assert(!field_keys(init).contains(key));
            }
        }
    }
}

/// A params schema that validates has no two fields whose trimmed keys agree, and each of
/// its fields has a non-blank key, label and help, a default of its kind, options of its kind
/// (none for a json field) without blank labels and without two that write out alike, and a
/// default equal to one of its options when it declares any.
pub proof fn valid_schema_rule(schema: ManifestParamsSchema)
    requires
        schema_issue(schema) is None,
    ensures
        forall|i: int| 0 <= i < schema.fields@.len() ==> field_sound(#[trigger] schema.fields@[i]),
        forall|i: int, j: int|
            0 <= i < j < schema.fields@.len() ==> trimmed(#[trigger] schema.fields@[i].key@) != trimmed(
                #[trigger] schema.fields@[j].key@,
            ),
{
    fields_rule(schema.fields@);
}

} // verus!
