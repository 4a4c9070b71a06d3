//! GLB scene import: opening a file's bytes with `gltf` and choosing and naming its scene,
//! errors and warnings, the ids and labels of imported nodes, what becomes of each node
//! and of each animation channel, how mesh nodes are flattened into one mesh, and how a
//! node's `extras` are read.
//!
//! Reading the file and all transform and vertex arithmetic happen in the host; it hands
//! this module the bytes and the facts it decides on.

use vstd::prelude::*;

use crate::hydration::{find_member, member_index};
use crate::json::JsonValue;
use crate::shared_mem::{read_word, word_at};
use crate::text::{concat2, concat3, concat4, concat5, decimal, decimal_string, owned};

verus! {

// ── Errors ───────────────────────────────────────────────────────────────────

/// Errors that can occur during GLB loading.
#[derive(Debug, Clone)]
pub enum GlbError {
    /// Failed to read the GLB file: the path and the reason.
    ReadError(String, String),
    /// Failed to parse GLB data: the path and the reason.
    ParseError(String, String),
    /// GLB format error (missing blob, external buffers, etc.).
    FormatError(String),
    /// Unsupported GLB feature.
    Unsupported(String),
}

/// An error as a value.
pub enum GlbErrorView {
    ReadError(Seq<char>, Seq<char>),
    ParseError(Seq<char>, Seq<char>),
    FormatError(Seq<char>),
    Unsupported(Seq<char>),
}

impl View for GlbError {
    type V = GlbErrorView;

    open spec fn view(&self) -> GlbErrorView {
        match self {
            GlbError::ReadError(a, b) => GlbErrorView::ReadError(a@, b@),
            GlbError::ParseError(a, b) => GlbErrorView::ParseError(a@, b@),
            GlbError::FormatError(a) => GlbErrorView::FormatError(a@),
            GlbError::Unsupported(a) => GlbErrorView::Unsupported(a@),
        }
    }
}

/// The text of an error.
pub open spec fn glb_error_text(e: GlbErrorView) -> Seq<char> {
    match e {
        GlbErrorView::ReadError(p, why) => "failed to read GLB file '"@ + p + "': "@ + why,
        GlbErrorView::ParseError(p, why) => "failed to parse GLB '"@ + p + "': "@ + why,
        GlbErrorView::FormatError(m) => "GLB format error: "@ + m,
        GlbErrorView::Unsupported(m) => "unsupported GLB feature: "@ + m,
    }
}

impl GlbError {
    /// The error's text.
    pub fn message(&self) -> (r: String)
        ensures
            r@ == glb_error_text(self@),
    {
        match self {
            GlbError::ReadError(p, why) => concat4("failed to read GLB file '", p.as_str(), "': ", why.as_str()),
            GlbError::ParseError(p, why) => concat4("failed to parse GLB '", p.as_str(), "': ", why.as_str()),
            GlbError::FormatError(m) => concat2("GLB format error: ", m.as_str()),
            GlbError::Unsupported(m) => concat2("unsupported GLB feature: ", m.as_str()),
        }
    }
}

/// A way a GLB file cannot be imported as a scene.
#[derive(Debug, Clone, Copy, PartialEq, Eq, Structural)]
pub enum GlbProblem {
    /// The file is not a `.glb`.
    NotGlb,
    /// The binary chunk is missing.
    MissingBlob,
    /// A buffer lives outside the file.
    ExternalBuffer,
    /// The document declares no scene.
    NoScene,
    /// No mesh node produced triangles.
    NoGeometry,
    /// More vertices than a `u32` index can reach.
    TooManyVertices,
    /// A flattened index does not fit the platform's indices.
    IndexOverflow,
    /// A primitive has no positions.
    MissingPositions,
}

/// The message of a problem with the file shown as `path`.
pub open spec fn problem_text(problem: GlbProblem, path: Seq<char>) -> Seq<char> {
    match problem {
        GlbProblem::NotGlb => "unsupported scene format for '"@ + path
            + "': only .glb scene assets are supported"@,
        GlbProblem::MissingBlob => "GLB '"@ + path + "' is missing its binary buffer chunk"@,
        GlbProblem::ExternalBuffer => "GLB '"@ + path
            + "' references an external buffer; package scene assets must be self-contained"@,
        GlbProblem::NoScene => "GLB '"@ + path + "' does not declare a scene to import"@,
        GlbProblem::NoGeometry => "GLB '"@ + path + "' did not produce any triangle geometry"@,
        GlbProblem::TooManyVertices => "GLB '"@ + path + "' exceeds the engine's u32 vertex limit"@,
        GlbProblem::IndexOverflow => "GLB '"@ + path
            + "' produced an index that overflows the static mesh limit"@,
        GlbProblem::MissingPositions => "GLB '"@ + path + "' contains a primitive without POSITION data"@,
    }
}

/// The format error for `problem` with the file shown as `path`.
pub fn format_error(problem: GlbProblem, path: &str) -> (e: GlbError)
    ensures
        e@ == GlbErrorView::FormatError(problem_text(problem, path@)),
{
    let m = match problem {
        GlbProblem::NotGlb => concat3(
            "unsupported scene format for '",
            path,
            "': only .glb scene assets are supported",
        ),
        GlbProblem::MissingBlob => concat3("GLB '", path, "' is missing its binary buffer chunk"),
        GlbProblem::ExternalBuffer => concat3(
            "GLB '",
            path,
            "' references an external buffer; package scene assets must be self-contained",
        ),
        GlbProblem::NoScene => concat3("GLB '", path, "' does not declare a scene to import"),
        GlbProblem::NoGeometry => concat3("GLB '", path, "' did not produce any triangle geometry"),
        GlbProblem::TooManyVertices => concat3("GLB '", path, "' exceeds the engine's u32 vertex limit"),
        GlbProblem::IndexOverflow => concat3(
            "GLB '",
            path,
            "' produced an index that overflows the static mesh limit",
        ),
        GlbProblem::MissingPositions => concat3(
            "GLB '",
            path,
            "' contains a primitive without POSITION data",
        ),
    };
    GlbError::FormatError(m)
}

/// The topology of a glTF primitive.
#[derive(Debug, Clone, Copy, PartialEq, Eq, Structural)]
pub enum PrimitiveMode {
    Points,
    Lines,
    LineLoop,
    LineStrip,
    Triangles,
    TriangleStrip,
    TriangleFan,
}

/// The name of a mode, as glTF's debug output spells it.
pub open spec fn mode_name(mode: PrimitiveMode) -> Seq<char> {
    match mode {
        PrimitiveMode::Points => "Points"@,
        PrimitiveMode::Lines => "Lines"@,
        PrimitiveMode::LineLoop => "LineLoop"@,
        PrimitiveMode::LineStrip => "LineStrip"@,
        PrimitiveMode::Triangles => "Triangles"@,
        PrimitiveMode::TriangleStrip => "TriangleStrip"@,
        PrimitiveMode::TriangleFan => "TriangleFan"@,
    }
}

/// Only triangle lists are imported; any other mode is refused.
pub fn check_primitive_mode(mode: PrimitiveMode, path: &str) -> (r: Result<(), GlbError>)
    ensures
        match r {
            Ok(()) => mode == PrimitiveMode::Triangles,
            Err(e) => mode != PrimitiveMode::Triangles && e@ == GlbErrorView::Unsupported(
                "GLB '"@ + path@ + "' uses primitive mode "@ + mode_name(mode)
                    + "; only triangle meshes are supported"@,
            ),
        },
{
    let name = match mode {
        PrimitiveMode::Points => "Points",
        PrimitiveMode::Lines => "Lines",
        PrimitiveMode::LineLoop => "LineLoop",
        PrimitiveMode::LineStrip => "LineStrip",
        PrimitiveMode::Triangles => {
            return Ok(());
        },
        PrimitiveMode::TriangleStrip => "TriangleStrip",
        PrimitiveMode::TriangleFan => "TriangleFan",
    };
    Err(
        GlbError::Unsupported(
            concat5("GLB '", path, "' uses primitive mode ", name, "; only triangle meshes are supported"),
        ),
    )
}

/// Scene assets must be `.glb` files.
pub fn check_scene_extension(extension: Option<&str>, path: &str) -> (r: Result<(), GlbError>)
    ensures
        match r {
            Ok(()) => extension matches Some(x) && x@ == "glb"@,
            Err(e) => !(extension matches Some(x) && x@ == "glb"@) && e@ == GlbErrorView::FormatError(
                problem_text(GlbProblem::NotGlb, path@),
            ),
        },
{
    if let Some(x) = extension {
        if crate::text::same_text(x, "glb") {
            return Ok(());
        }
    }
    Err(format_error(GlbProblem::NotGlb, path))
}

// ── Scene identity ───────────────────────────────────────────────────────────

/// Reference to a scene asset in a manifest.
#[derive(Debug, Clone)]
pub struct SceneAssetRef {
    /// Path to the scene asset.
    pub path: String,
    /// Optional ID for the scene.
    pub id: Option<String>,
    /// Optional label for the scene.
    pub label: Option<String>,
    /// Optional entry camera selector.
    pub entry_camera: Option<String>,
    /// Optional compile profile.
    pub compile_profile: Option<String>,
}

impl SceneAssetRef {
    /// Create a new scene asset reference.
    pub fn new(path: String) -> (r: Self)
        ensures
            r.path@ == path@,
            r.id is None,
            r.label is None,
            r.entry_camera is None,
            r.compile_profile is None,
    {
        SceneAssetRef { path, id: None, label: None, entry_camera: None, compile_profile: None }
    }
}

/// How an imported scene is named.
#[derive(Debug, Clone)]
pub struct SceneIdentity {
    /// The scene id.
    pub id: String,
    /// The label.
    pub label: Option<String>,
    /// The entry camera selector.
    pub entry_camera: Option<String>,
    /// The compile profile.
    pub compile_profile: Option<String>,
}

/// The text of an optional string.
pub open spec fn text_of(o: Option<String>) -> Option<Seq<char>> {
    match o {
        Some(s) => Some(s@),
        None => None,
    }
}

/// The text of an optional string slice.
pub open spec fn str_of(o: Option<&str>) -> Option<Seq<char>> {
    match o {
        Some(s) => Some(s@),
        None => None,
    }
}

/// `a` if present, else `b`.
pub open spec fn first_of(a: Option<Seq<char>>, b: Option<Seq<char>>) -> Option<Seq<char>> {
    if a is Some {
        a
    } else {
        b
    }
}

/// The selector's field chosen by `pick`, if there is a selector.
pub open spec fn selected(selector: Option<&SceneAssetRef>, pick: spec_fn(SceneAssetRef) -> Option<String>) -> Option<Seq<char>> {
    match selector {
        Some(s) => text_of(pick(*s)),
        None => None,
    }
}

/// A copy of an optional string.
fn copy_text(o: &Option<String>) -> (r: Option<String>)
    ensures
        text_of(r) == text_of(*o),
{
    match o {
        Some(s) => Some(owned(s.as_str())),
        None => None,
    }
}

/// An owned copy of an optional string slice.
fn own_text(o: Option<&str>) -> (r: Option<String>)
    ensures
        text_of(r) == str_of(o),
{
    match o {
        Some(s) => Some(owned(s)),
        None => None,
    }
}

/// How an imported scene is named, given the selector, the scene's name and the file stem:
/// the id is the selector's id, else the scene's name, else the file stem, else `scene`;
/// the label is the selector's label, else the scene's name, else the file stem; the entry
/// camera is the selector's; the compile profile is the selector's, else `default_world`.
pub open spec fn identity_for(
    r: SceneIdentity,
    selector: Option<&SceneAssetRef>,
    scene_name: Option<Seq<char>>,
    file_stem: Option<Seq<char>>,
) -> bool {
    &&& Some(r.id@) == first_of(
        first_of(selected(selector, |s: SceneAssetRef| s.id), scene_name),
        first_of(file_stem, Some("scene"@)),
    )
    &&& text_of(r.label) == first_of(
        selected(selector, |s: SceneAssetRef| s.label),
        first_of(scene_name, file_stem),
    )
    &&& text_of(r.entry_camera) == selected(selector, |s: SceneAssetRef| s.entry_camera)
    &&& text_of(r.compile_profile) == first_of(
        selected(selector, |s: SceneAssetRef| s.compile_profile),
        Some("default_world"@),
    )
}

/// Names an imported scene as `identity_for` says.
pub fn scene_identity(
    selector: Option<&SceneAssetRef>,
    scene_name: Option<&str>,
    file_stem: Option<&str>,
) -> (r: SceneIdentity)
    ensures
        identity_for(r, selector, str_of(scene_name), str_of(file_stem)),
{
    let (sel_id, sel_label, sel_camera, sel_profile) = match selector {
        Some(s) => (copy_text(&s.id), copy_text(&s.label), copy_text(&s.entry_camera), copy_text(&s.compile_profile)),
        None => (None, None, None, None),
    };
    let id = match sel_id {
        Some(x) => x,
        None => match scene_name {
            Some(n) => owned(n),
            None => match file_stem {
                Some(f) => owned(f),
                None => owned("scene"),
            },
        },
    };
    let label = match sel_label {
        Some(x) => Some(x),
        None => match scene_name {
            Some(n) => Some(owned(n)),
            None => own_text(file_stem),
        },
    };
    let compile_profile = match sel_profile {
        Some(x) => Some(x),
        None => Some(owned("default_world")),
    };
    SceneIdentity { id, label, entry_camera: sel_camera, compile_profile }
}

// ── Opening a GLB file ───────────────────────────────────────────────────────

/// `gltf::Gltf`, a parsed glTF document with its binary payload; opaque here.
#[verifier::external_type_specification]
#[verifier::external_body]
pub struct ExGltf(gltf::Gltf);

/// What scene selection reads of a parsed GLB document.
#[derive(Debug, Clone)]
pub struct GlbOutline {
    /// The length of the binary chunk, if the file carries one.
    pub blob_len: Option<usize>,
    /// For each buffer, the URI its data is read from, or `None` for the binary chunk.
    pub buffer_uris: Vec<Option<String>>,
    /// The index of the document's default scene, if it names one.
    pub default_scene: Option<usize>,
    /// The name of each scene, in document order.
    pub scene_names: Vec<Option<String>>,
}

/// A [`GlbOutline`] as a value.
pub struct GlbOutlineView {
    pub blob_len: Option<usize>,
    pub buffer_uris: Seq<Option<Seq<char>>>,
    pub default_scene: Option<usize>,
    pub scene_names: Seq<Option<Seq<char>>>,
}

impl View for GlbOutline {
    type V = GlbOutlineView;

    open spec fn view(&self) -> GlbOutlineView {
        GlbOutlineView {
            blob_len: self.blob_len,
            buffer_uris: self.buffer_uris@.map_values(|u: Option<String>| text_of(u)),
            default_scene: self.default_scene,
            scene_names: self.scene_names@.map_values(|n: Option<String>| text_of(n)),
        }
    }
}

/// What `gltf::Gltf::from_slice` makes of `bytes`, as an outline, or the text of its error.
pub uninterp spec fn glb_parse(bytes: Seq<u8>) -> Result<GlbOutlineView, Seq<char>>;

/// Whether `bytes` start with a binary glTF header (`glTF` magic, version, length) whose
/// little-endian length field is below the header's own 12 bytes. `gltf` subtracts 12 from
/// that field before it checks anything else, which overflows on such input.
pub open spec fn glb_length_underflows(bytes: Seq<u8>) -> bool {
    &&& bytes.len() >= 12
    &&& bytes[0] == 0x67u8 && bytes[1] == 0x6cu8 && bytes[2] == 0x54u8 && bytes[3] == 0x46u8
    &&& word_at(bytes, 8) < 12
}

/// The text `gltf` gives when the declared length does not fit the data.
pub open spec fn glb_length_error_text() -> Seq<char> {
    "could not completely read the object"@
}

/// Whether `bytes` start with a GLB header whose length field is below 12.
fn length_underflows(bytes: &[u8]) -> (r: bool)
    ensures
        r == glb_length_underflows(bytes@),
{
    if bytes.len() < 12 {
        return false;
    }
    if !(bytes[0] == 0x67u8 && bytes[1] == 0x6cu8 && bytes[2] == 0x54u8 && bytes[3] == 0x46u8) {
        return false;
    }
    read_word(bytes, 8) < 12
}

/// Parses a GLB file with `gltf::Gltf::from_slice`, which decodes the container and the
/// JSON and validates the document, and reads from the result what scene selection needs:
/// the binary chunk's length, each buffer's source (the chunk, or a URI), the default
/// scene's index and each scene's name. On failure it gives the error's text.
/// Trusted: the outline, or the error text, is what `glb_parse` names for these bytes, and
/// a default scene that the document names is one of its scenes (validation checks the
/// index, and `default_scene` would panic otherwise). Input whose GLB length field is
/// below 12 is left out: `gltf` panics on it in builds with overflow checks. Of the document it hands back
/// nothing more is said: the outline is all that is described of it.
#[verifier::external_body]
fn parse_glb(bytes: &[u8]) -> (r: Result<(gltf::Gltf, GlbOutline), String>)
    requires
        !glb_length_underflows(bytes@),
    ensures
        match r {
            Ok(parsed) => glb_parse(bytes@) == Ok::<GlbOutlineView, Seq<char>>(parsed.1@)
                && (parsed.1.default_scene matches Some(i) ==> i < parsed.1.scene_names@.len()),
            Err(why) => glb_parse(bytes@) == Err::<GlbOutlineView, Seq<char>>(why@),
        },
{
    let gltf = gltf::Gltf::from_slice(bytes).map_err(|error| error.to_string())?;
    let outline = GlbOutline {
        blob_len: gltf.blob.as_ref().map(Vec::len),
        buffer_uris: gltf.document.buffers().map(|b| match b.source() {
            gltf::buffer::Source::Bin => None,
            gltf::buffer::Source::Uri(uri) => Some(String::from(uri)),
        }).collect(),
        default_scene: gltf.document.default_scene().map(|scene| scene.index()),
        scene_names: gltf.document.scenes().map(|scene| scene.name().map(String::from)).collect(),
    };
    Ok((gltf, outline))
}

/// Whether every buffer's data lives in the binary chunk (none is read from a URI).
pub open spec fn all_in_file(buffer_uris: Seq<Option<Seq<char>>>) -> bool {
    forall|i: int| 0 <= i < buffer_uris.len() ==> #[trigger] buffer_uris[i] is None
}

/// Which scene of an outline is imported, or the problem that stops the import: a missing
/// binary chunk, then a buffer outside the file, then no scene; otherwise the default
/// scene, else the first.
pub open spec fn chosen_scene(o: GlbOutlineView) -> Result<usize, GlbProblem> {
    if o.blob_len is None {
        Err(GlbProblem::MissingBlob)
    } else if !all_in_file(o.buffer_uris) {
        Err(GlbProblem::ExternalBuffer)
    } else {
        match o.default_scene {
            Some(i) => Ok(i),
            None => if o.scene_names.len() > 0 {
                Ok(0)
            } else {
                Err(GlbProblem::NoScene)
            },
        }
    }
}

/// The name of scene `i` of an outline, if it has one.
pub open spec fn scene_name_at(o: GlbOutlineView, i: usize) -> Option<Seq<char>> {
    if i < o.scene_names.len() {
        o.scene_names[i as int]
    } else {
        None
    }
}

/// Chooses the scene of a parsed GLB file shown as `shown` and names it: the format error
/// of the first problem `chosen_scene` finds, else the scene's index and its identity.
pub fn choose_glb_scene(
    shown: &str,
    file_stem: Option<&str>,
    outline: &GlbOutline,
    selector: Option<&SceneAssetRef>,
) -> (r: Result<(usize, SceneIdentity), GlbError>)
    ensures
        match chosen_scene(outline@) {
            Ok(i) => r matches Ok((j, identity)) && j == i
                && identity_for(identity, selector, scene_name_at(outline@, i), str_of(file_stem)),
            Err(problem) => r matches Err(e) && e@ == GlbErrorView::FormatError(
                problem_text(problem, shown@),
            ),
        },
{
    if outline.blob_len.is_none() {
        return Err(format_error(GlbProblem::MissingBlob, shown));
    }
    let mut k: usize = 0;
    while k < outline.buffer_uris.len()
        invariant
            outline.blob_len is Some,
            k <= outline.buffer_uris@.len(),
            forall|i: int| 0 <= i < k ==> #[trigger] outline.buffer_uris@[i] is None,
        decreases outline.buffer_uris@.len() - k,
    {
        if outline.buffer_uris[k].is_some() {
            assert(outline@.buffer_uris[k as int] is Some);
            return Err(format_error(GlbProblem::ExternalBuffer, shown));
        }
        k += 1;
    }
    assert(all_in_file(outline@.buffer_uris)) by {
        assert forall|i: int| 0 <= i < outline@.buffer_uris.len() implies #[trigger] outline@.buffer_uris[i]
            is None by {
            assert(outline.buffer_uris@[i] is None);
        }
    }
    let index = match outline.default_scene {
        Some(i) => i,
        None => {
            if outline.scene_names.len() == 0 {
                return Err(format_error(GlbProblem::NoScene, shown));
            }
            0
        },
    };
    let name: Option<&str> = if index < outline.scene_names.len() {
        match &outline.scene_names[index] {
            Some(n) => Some(n.as_str()),
            None => None,
        }
    } else {
        None
    };
    proof {
        if index < outline.scene_names@.len() {
            assert(outline@.scene_names[index as int] == text_of(outline.scene_names@[index as int]));
        }
    }
    let identity = scene_identity(selector, name, file_stem);
    Ok((index, identity))
}

/// Opens the GLB file shown as `shown`, with extension `extension`, stem `file_stem` and
/// contents `bytes`: a `.glb` extension is required, then the bytes must parse, then
/// `choose_glb_scene` picks and names the scene. Gives the parsed document with the
/// scene's index and identity. A GLB header whose length field is below 12 is refused with
/// the error `gltf` gives for a length that does not fit, before `gltf` sees the bytes.
pub fn open_glb_scene(
    shown: &str,
    extension: Option<&str>,
    file_stem: Option<&str>,
    bytes: &[u8],
    selector: Option<&SceneAssetRef>,
) -> (r: Result<(gltf::Gltf, usize, SceneIdentity), GlbError>)
    ensures
        !(extension matches Some(x) && x@ == "glb"@) ==> (r matches Err(e) && e@
            == GlbErrorView::FormatError(problem_text(GlbProblem::NotGlb, shown@))),
        (extension matches Some(x) && x@ == "glb"@) && glb_length_underflows(bytes@) ==> (r matches Err(
            e,
        ) && e@ == GlbErrorView::ParseError(shown@, glb_length_error_text())),
        (extension matches Some(x) && x@ == "glb"@) && !glb_length_underflows(bytes@) ==> match glb_parse(
            bytes@,
        ) {
            Err(why) => r matches Err(e) && e@ == GlbErrorView::ParseError(shown@, why),
            Ok(o) => match chosen_scene(o) {
                Ok(i) => r matches Ok((_, j, identity)) && j == i
                    && identity_for(identity, selector, scene_name_at(o, i), str_of(file_stem)),
                Err(problem) => r matches Err(e) && e@ == GlbErrorView::FormatError(
                    problem_text(problem, shown@),
                ),
            },
        },
{
    check_scene_extension(extension, shown)?;
    if length_underflows(bytes) {
        return Err(GlbError::ParseError(owned(shown), owned("could not completely read the object")));
    }
    match parse_glb(bytes) {
        Err(why) => Err(GlbError::ParseError(owned(shown), why)),
        Ok((gltf, outline)) => {
            let (index, identity) = choose_glb_scene(shown, file_stem, &outline, selector)?;
            Ok((gltf, index, identity))
        },
    }
}

// ── Node ids and labels ──────────────────────────────────────────────────────

/// `prefix` followed by the decimal `index`.
pub open spec fn numbered(prefix: Seq<char>, index: nat) -> Seq<char> {
    prefix + decimal(index)
}

/// `base`, with `#primitive_{i}` appended when the mesh has more than one primitive.
pub open spec fn with_primitive(base: Seq<char>, primitive_index: nat, primitive_count: nat) -> Seq<char> {
    if primitive_count > 1 {
        base + numbered("#primitive_"@, primitive_index)
    } else {
        base
    }
}

/// `prefix` and the decimal `index`.
fn numbered_text(prefix: &str, index: usize) -> (r: String)
    ensures
        r@ == numbered(prefix@, index as nat),
{
    let n = decimal_string(index);
    concat2(prefix, n.as_str())
}

/// `base` with the primitive suffix when needed.
fn suffixed(base: String, primitive_index: usize, primitive_count: usize) -> (r: String)
    ensures
        r@ == with_primitive(base@, primitive_index as nat, primitive_count as nat),
{
    if primitive_count > 1 {
        let suffix = numbered_text("#primitive_", primitive_index);
        concat2(base.as_str(), suffix.as_str())
    } else {
        base
    }
}

/// The first present name, else `fallback`.
fn name_or(a: Option<&str>, b: Option<&str>, fallback: String) -> (r: String)
    ensures
        Some(r@) == first_of(first_of(str_of(a), str_of(b)), Some(fallback@)),
{
    match a {
        Some(x) => owned(x),
        None => match b {
            Some(x) => owned(x),
            None => fallback,
        },
    }
}

/// Label of a mesh node: the node's name, else the mesh's, else `mesh_node_{index}`, with
/// the primitive suffix when the mesh has several primitives.
pub fn scene_mesh_label(
    node_name: Option<&str>,
    mesh_name: Option<&str>,
    node_index: usize,
    primitive_index: usize,
    primitive_count: usize,
) -> (r: String)
    ensures
        r@ == with_primitive(
            first_of(
                first_of(str_of(node_name), str_of(mesh_name)),
                Some(numbered("mesh_node_"@, node_index as nat)),
            )->0,
            primitive_index as nat,
            primitive_count as nat,
        ),
{
    let base = name_or(node_name, mesh_name, numbered_text("mesh_node_", node_index));
    suffixed(base, primitive_index, primitive_count)
}

/// Stable id of a mesh node: the `vzglyd_id` extra, else the node's name, else the mesh's,
/// else `mesh_node_{index}`, with the primitive suffix when the mesh has several primitives.
pub fn stable_scene_mesh_id(
    vzglyd_id: Option<&str>,
    node_name: Option<&str>,
    mesh_name: Option<&str>,
    node_index: usize,
    primitive_index: usize,
    primitive_count: usize,
) -> (r: String)
    ensures
        r@ == with_primitive(
            first_of(
                first_of(str_of(vzglyd_id), str_of(node_name)),
                first_of(str_of(mesh_name), Some(numbered("mesh_node_"@, node_index as nat))),
            )->0,
            primitive_index as nat,
            primitive_count as nat,
        ),
{
    let base = match vzglyd_id {
        Some(x) => owned(x),
        None => name_or(node_name, mesh_name, numbered_text("mesh_node_", node_index)),
    };
    suffixed(base, primitive_index, primitive_count)
}

/// Label of a camera: the node's name, else the camera's, else `camera_node_{index}`.
pub fn camera_label(node_name: Option<&str>, camera_name: Option<&str>, node_index: usize) -> (r: String)
    ensures
        Some(r@) == first_of(
            first_of(str_of(node_name), str_of(camera_name)),
            Some(numbered("camera_node_"@, node_index as nat)),
        ),
{
    name_or(node_name, camera_name, numbered_text("camera_node_", node_index))
}

/// Stable id of a camera: the `vzglyd_id` extra, else the node's name, else the camera's,
/// else `camera_node_{index}`.
pub fn stable_scene_camera_id(
    vzglyd_id: Option<&str>,
    node_name: Option<&str>,
    camera_name: Option<&str>,
    node_index: usize,
) -> (r: String)
    ensures
        Some(r@) == first_of(
            first_of(str_of(vzglyd_id), str_of(node_name)),
            first_of(str_of(camera_name), Some(numbered("camera_node_"@, node_index as nat))),
        ),
{
    match vzglyd_id {
        Some(x) => owned(x),
        None => name_or(node_name, camera_name, numbered_text("camera_node_", node_index)),
    }
}

/// Label of a light: the node's name, else the light's, else `light_node_{index}`.
pub fn scene_light_label(node_name: Option<&str>, light_name: Option<&str>, node_index: usize) -> (r: String)
    ensures
        Some(r@) == first_of(
            first_of(str_of(node_name), str_of(light_name)),
            Some(numbered("light_node_"@, node_index as nat)),
        ),
{
    name_or(node_name, light_name, numbered_text("light_node_", node_index))
}

/// Stable id of a light: the `vzglyd_id` extra, else the node's name, else the light's,
/// else `light_node_{index}`.
pub fn stable_scene_light_id(
    vzglyd_id: Option<&str>,
    node_name: Option<&str>,
    light_name: Option<&str>,
    node_index: usize,
) -> (r: String)
    ensures
        Some(r@) == first_of(
            first_of(str_of(vzglyd_id), str_of(node_name)),
            first_of(str_of(light_name), Some(numbered("light_node_"@, node_index as nat))),
        ),
{
    match vzglyd_id {
        Some(x) => owned(x),
        None => name_or(node_name, light_name, numbered_text("light_node_", node_index)),
    }
}

/// Label of an anchor: the node's name, else `anchor_node_{index}`.
pub fn anchor_label(node_name: Option<&str>, node_index: usize) -> (r: String)
    ensures
        Some(r@) == first_of(str_of(node_name), Some(numbered("anchor_node_"@, node_index as nat))),
{
    match node_name {
        Some(x) => owned(x),
        None => numbered_text("anchor_node_", node_index),
    }
}

/// Stable id of an anchor: the `vzglyd_id` extra, else the node's name, else
/// `anchor_node_{index}`.
pub fn stable_anchor_id(vzglyd_id: Option<&str>, node_name: Option<&str>, node_index: usize) -> (r: String)
    ensures
        Some(r@) == first_of(
            first_of(str_of(vzglyd_id), str_of(node_name)),
            Some(numbered("anchor_node_"@, node_index as nat)),
        ),
{
    name_or(vzglyd_id, node_name, numbered_text("anchor_node_", node_index))
}

/// The name a node goes by in warnings: its name, else `node_{index}`.
pub fn node_display_name(node_name: Option<&str>, node_index: usize) -> (r: String)
    ensures
        Some(r@) == first_of(str_of(node_name), Some(numbered("node_"@, node_index as nat))),
{
    match node_name {
        Some(x) => owned(x),
        None => numbered_text("node_", node_index),
    }
}

// ── Flattening mesh nodes ────────────────────────────────────────────────────

/// A mesh: vertices and the triangle-list indices into them.
#[derive(Debug, Clone)]
pub struct IndexedMesh<V> {
    /// The vertices.
    pub vertices: Vec<V>,
    /// Indices into `vertices`, three per triangle.
    pub indices: Vec<u32>,
}

/// The vertices of all nodes, in node order.
pub open spec fn flat_vertices<V>(nodes: Seq<IndexedMesh<V>>) -> Seq<V>
    decreases nodes.len(),
{
    if nodes.len() == 0 {
        Seq::empty()
    } else {
        flat_vertices(nodes.drop_last()) + nodes.last().vertices@
    }
}

/// The indices of all nodes in node order, each moved past the vertices of the nodes
/// before it and cut to 32 bits.
pub open spec fn flat_indices<V>(nodes: Seq<IndexedMesh<V>>) -> Seq<u32>
    decreases nodes.len(),
{
    if nodes.len() == 0 {
        Seq::empty()
    } else {
        let offset = flat_vertices(nodes.drop_last()).len();
        flat_indices(nodes.drop_last()) + nodes.last().indices@.map_values(|x: u32| (offset + x) as u32)
    }
}

/// The first problem met while flattening the nodes in order: no nodes at all, a node that
/// takes the vertex count past `u32::MAX`, or an index that overflows `usize` once moved.
pub open spec fn flatten_problem<V>(nodes: Seq<IndexedMesh<V>>) -> Option<GlbProblem>
    decreases nodes.len(),
{
    if nodes.len() == 0 {
        Some(GlbProblem::NoGeometry)
    } else if nodes.len() > 1 && flatten_problem(nodes.drop_last()) is Some {
        flatten_problem(nodes.drop_last())
    } else {
        let offset = flat_vertices(nodes.drop_last()).len();
        let node = nodes.last();
        if offset + node.vertices@.len() > u32::MAX {
            Some(GlbProblem::TooManyVertices)
        } else if exists|j: int| 0 <= j < node.indices@.len() && offset + #[trigger] node.indices@[j] > usize::MAX {
            Some(GlbProblem::IndexOverflow)
        } else {
            None
        }
    }
}

/// Flattening keeps each node's geometry together: node `k`'s vertices stand, in order, right
/// after the vertices of the nodes before it, and its indices stand right after the indices
/// of the nodes before it, each moved by that vertex count, so they still pick the node's
/// own vertices.
pub proof fn flatten_keeps_nodes<V>(nodes: Seq<IndexedMesh<V>>, k: int)
    requires
        0 <= k < nodes.len(),
    ensures
        ({
            let off = flat_vertices(nodes.take(k)).len();
            let at = flat_indices(nodes.take(k)).len();
            &&& off + nodes[k].vertices@.len() <= flat_vertices(nodes).len()
            &&& flat_vertices(nodes).subrange(off as int, (off + nodes[k].vertices@.len()) as int)
                == nodes[k].vertices@
            &&& at + nodes[k].indices@.len() <= flat_indices(nodes).len()
            &&& forall|j: int|
                0 <= j < nodes[k].indices@.len() ==> #[trigger] flat_indices(nodes)[at + j] == (off
                    + nodes[k].indices@[j]) as u32
        }),
    decreases nodes.len(),
{
    let last = nodes.len() - 1;
    if k == last {
        assert(nodes.drop_last() == nodes.take(k));
        let off = flat_vertices(nodes.take(k)).len();
        assert(flat_vertices(nodes).subrange(off as int, (off + nodes[k].vertices@.len()) as int)
            =~= nodes[k].vertices@);
    } else {
        flatten_keeps_nodes(nodes.drop_last(), k);
        assert(nodes.drop_last().take(k) == nodes.take(k));
        assert(nodes.drop_last()[k] == nodes[k]);
        let off = flat_vertices(nodes.take(k)).len();
        let at = flat_indices(nodes.take(k)).len();
        let front = flat_vertices(nodes.drop_last());
        assert(flat_vertices(nodes).subrange(off as int, (off + nodes[k].vertices@.len()) as int)
            =~= front.subrange(off as int, (off + nodes[k].vertices@.len()) as int));
        assert forall|j: int| 0 <= j < nodes[k].indices@.len() implies #[trigger] flat_indices(
            nodes,
        )[at + j] == (off + nodes[k].indices@[j]) as u32 by {
            assert(flat_indices(nodes)[at + j] == flat_indices(nodes.drop_last())[at + j]);
        }
    }
}

/// Flattens mesh nodes into one mesh: their vertices in node order, and their indices moved
/// past the vertices of the nodes before them. `path` names the file in error messages.
#[verifier::loop_isolation(false)]
pub fn flatten_mesh_nodes<V: Copy>(nodes: &Vec<IndexedMesh<V>>, path: &str) -> (r: Result<IndexedMesh<V>, GlbError>)
    ensures
        match r {
            Ok(m) => flatten_problem(nodes@) is None && m.vertices@ == flat_vertices(nodes@)
                && m.indices@ == flat_indices(nodes@),
            Err(e) => flatten_problem(nodes@) matches Some(p) && e@ == GlbErrorView::FormatError(
                problem_text(p, path@),
            ),
        },
{
    if nodes.len() == 0 {
        return Err(format_error(GlbProblem::NoGeometry, path));
    }
    let mut vertices: Vec<V> = Vec::new();
    let mut indices: Vec<u32> = Vec::new();
    let mut k: usize = 0;
    while k < nodes.len()
        invariant
            0 < nodes@.len(),
            k <= nodes@.len(),
            k > 0 ==> flatten_problem(nodes@.take(k as int)) is None,
            vertices@ == flat_vertices(nodes@.take(k as int)),
            indices@ == flat_indices(nodes@.take(k as int)),
            vertices@.len() <= u32::MAX,
        decreases nodes@.len() - k,
    {
        let node = &nodes[k];
        let ghost prefix = nodes@.take(k as int);
        let ghost upto = nodes@.take(k + 1);
        assert(upto.drop_last() == prefix);
        assert(upto.last() == *node);
        let offset = vertices.len();
        if node.vertices.len() > 4294967295 - offset {
            proof {
                lemma_flatten_problem_extends(nodes@, k + 1);
            }
            return Err(format_error(GlbProblem::TooManyVertices, path));
        }
        let mut j: usize = 0;
        while j < node.vertices.len()
            invariant
                j <= node.vertices@.len(),
                vertices@ == flat_vertices(prefix) + node.vertices@.take(j as int),
            decreases node.vertices@.len() - j,
        {
            vertices.push(node.vertices[j]);
            assert(node.vertices@.take(j + 1) == node.vertices@.take(j as int).push(node.vertices@[j as int]));
            j += 1;
        }
        assert(node.vertices@.take(j as int) == node.vertices@);
        let mut t: usize = 0;
        while t < node.indices.len()
            invariant
                t <= node.indices@.len(),
                offset == flat_vertices(prefix).len(),
                offset <= u32::MAX,
                indices@ == flat_indices(prefix) + node.indices@.take(t as int).map_values(
                    |x: u32| (offset + x) as u32,
                ),
                forall|i: int| 0 <= i < t ==> offset + #[trigger] node.indices@[i] <= usize::MAX,
            decreases node.indices@.len() - t,
        {
            let x = node.indices[t];
            let sum = offset.checked_add(x as usize);
            match sum {
                None => {
                    proof {
                        assert(offset + node.indices@[t as int] > usize::MAX);
                        lemma_flatten_problem_extends(nodes@, k + 1);
                    }
                    return Err(format_error(GlbProblem::IndexOverflow, path));
                },
                Some(v) => {
                    indices.push(v as u32);
                    assert(node.indices@.take(t + 1).map_values(|x: u32| (offset + x) as u32)
                        == node.indices@.take(t as int).map_values(|x: u32| (offset + x) as u32).push(
                        (offset + x) as u32,
                    ));
                },
            }
            t += 1;
        }
        assert(node.indices@.take(t as int) == node.indices@);
        assert(!(exists|i: int| 0 <= i < node.indices@.len() && offset + #[trigger] node.indices@[i] > usize::MAX));
        k += 1;
    }
    assert(nodes@.take(k as int) == nodes@);
    Ok(IndexedMesh { vertices, indices })
}

proof fn lemma_flatten_problem_extends<V>(nodes: Seq<IndexedMesh<V>>, n: int)
    requires
        0 < n <= nodes.len(),
        flatten_problem(nodes.take(n)) is Some,
    ensures
        flatten_problem(nodes) == flatten_problem(nodes.take(n)),
    decreases nodes.len() - n,
{
    if n < nodes.len() {
        assert(nodes.drop_last().take(n) == nodes.take(n));
        lemma_flatten_problem_extends(nodes.drop_last(), n);
    } else {
        assert(nodes.take(n) == nodes);
    }
}

/// Where index `j` of node `k` lands in the flattened index list.
pub open spec fn flat_position<V>(nodes: Seq<IndexedMesh<V>>, k: int, j: int) -> int {
    flat_indices(nodes.take(k)).len() + j
}

/// Flattening keeps every triangle: when flattening succeeds, an index `j` of node `k` that
/// points at one of the node's own vertices lands, in the flattened mesh, on an index that
/// points at that same vertex.
pub proof fn flatten_keeps_triangles<V>(nodes: Seq<IndexedMesh<V>>, k: int, j: int)
    requires
        flatten_problem(nodes) is None,
        0 <= k < nodes.len(),
        0 <= j < nodes[k].indices@.len(),
        nodes[k].indices@[j] < nodes[k].vertices@.len(),
    ensures
        0 <= flat_position(nodes, k, j) < flat_indices(nodes).len(),
        flat_indices(nodes)[flat_position(nodes, k, j)] < flat_vertices(nodes).len(),
        flat_vertices(nodes)[flat_indices(nodes)[flat_position(nodes, k, j)] as int]
            == nodes[k].vertices@[nodes[k].indices@[j] as int],
    decreases nodes.len(),
{
    let last = nodes.len() - 1;
    let prefix = nodes.drop_last();
    let offset = flat_vertices(prefix).len();
    if k == last {
        assert(nodes.take(k) == prefix);
        let x = nodes[k].indices@[j];
        assert(offset + nodes.last().vertices@.len() <= u32::MAX);
        assert(flat_indices(nodes)[flat_position(nodes, k, j)] == (offset + x) as u32);
        assert((offset + x) as u32 == offset + x);
    } else {
        assert(prefix[k] == nodes[k]);
        assert(prefix.take(k) == nodes.take(k));
        if prefix.len() > 0 {
            assert(flatten_problem(prefix) is None);
        }
        flatten_keeps_triangles(prefix, k, j);
        let pos = flat_position(nodes, k, j);
        assert(flat_indices(nodes)[pos] == flat_indices(prefix)[pos]);
        assert(flat_vertices(nodes)[flat_indices(prefix)[pos] as int] == flat_vertices(prefix)[flat_indices(
            prefix,
        )[pos] as int]);
    }
}

// ── Nodes ────────────────────────────────────────────────────────────────────

/// The kind of a punctual light on a node.
#[derive(Debug, Clone, Copy, PartialEq, Eq, Structural)]
pub enum LightFacts {
    /// A directional light; `degenerate` when the node's transform sends its axis to zero.
    Directional { degenerate: bool },
    /// A point light.
    Point,
    /// A spot light.
    Spot,
}

/// What the import decides on about one scene node.
#[derive(Debug, Clone, Copy, PartialEq, Eq, Structural)]
pub struct NodeFacts {
    /// The node has a skin.
    pub has_skin: bool,
    /// The node has a non-empty list of morph target weights.
    pub has_morph_weights: bool,
    /// The node has a mesh.
    pub has_mesh: bool,
    /// The node has a camera.
    pub has_camera: bool,
    /// The node's light, if any.
    pub light: Option<LightFacts>,
    /// The node's extras tag it as an anchor.
    pub anchor_tagged: bool,
    /// The node's extras give it a `vzglyd_id`.
    pub has_vzglyd_id: bool,
    /// The number of child nodes.
    pub child_count: usize,
}

/// Something the import ignores on a node, with a warning.
#[derive(Debug, Clone, Copy, PartialEq, Eq, Structural)]
pub enum NodeWarning {
    Skin,
    MorphWeights,
    DegenerateLight,
    PointLight,
    SpotLight,
    EmptyNode,
}

/// What the import does with one node.
#[derive(Debug, Clone, Copy, PartialEq, Eq, Structural)]
pub struct NodePlan {
    /// Warn that the node's skin is ignored.
    pub warn_skin: bool,
    /// Warn that the node's morph target weights are ignored.
    pub warn_morph: bool,
    /// Import the node's light as a directional light.
    pub import_light: bool,
    /// The warning for a light that is not imported.
    pub light_warning: Option<NodeWarning>,
    /// Import the node as an anchor.
    pub anchor: bool,
    /// Warn that the node is an empty node and is ignored.
    pub warn_empty: bool,
}

/// The plan for a node: skins and morph weights are ignored with a warning; a directional
/// light is imported unless its direction is degenerate; point and spot lights are ignored
/// with a warning; a node with no mesh, camera or light becomes an anchor when its extras tag
/// it as one or give it an id, and is otherwise ignored with a warning when it has no
/// children either.
pub open spec fn node_plan(f: NodeFacts) -> NodePlan {
    let bare = !f.has_mesh && !f.has_camera && f.light is None;
    let anchor = bare && (f.anchor_tagged || f.has_vzglyd_id);
    NodePlan {
        warn_skin: f.has_skin,
        warn_morph: f.has_morph_weights,
        import_light: f.light == Some(LightFacts::Directional { degenerate: false }),
        light_warning: match f.light {
            Some(LightFacts::Directional { degenerate: true }) => Some(NodeWarning::DegenerateLight),
            Some(LightFacts::Point) => Some(NodeWarning::PointLight),
            Some(LightFacts::Spot) => Some(NodeWarning::SpotLight),
            _ => None,
        },
        anchor,
        warn_empty: !anchor && bare && f.child_count == 0,
    }
}

/// What becomes of a node: skins and morph weights are each warned about exactly when
/// present; a light is either imported or warned about, never both, and only a directional
/// light with a usable direction is imported; a node with a mesh, camera or light is never an
/// anchor nor an empty node; a bare node becomes an anchor exactly when tagged or given an
/// id, and is warned about as empty exactly when it is not one and has no children.
pub proof fn node_plan_rule(f: NodeFacts)
    ensures
        node_plan(f).warn_skin == f.has_skin,
        node_plan(f).warn_morph == f.has_morph_weights,
        node_plan(f).import_light <==> f.light == Some(LightFacts::Directional { degenerate: false }),
        f.light is None ==> !node_plan(f).import_light && node_plan(f).light_warning is None,
        f.light is Some ==> (node_plan(f).import_light <==> node_plan(f).light_warning is None),
        f.light == Some(LightFacts::Point) ==> node_plan(f).light_warning == Some(NodeWarning::PointLight),
        f.light == Some(LightFacts::Spot) ==> node_plan(f).light_warning == Some(NodeWarning::SpotLight),
        f.light == Some(LightFacts::Directional { degenerate: true }) ==> node_plan(f).light_warning
            == Some(NodeWarning::DegenerateLight),
        (f.has_mesh || f.has_camera || f.light is Some) ==> !node_plan(f).anchor
            && !node_plan(f).warn_empty,
        (!f.has_mesh && !f.has_camera && f.light is None) ==> (node_plan(f).anchor <==> (
        f.anchor_tagged || f.has_vzglyd_id)),
        (!f.has_mesh && !f.has_camera && f.light is None) ==> (node_plan(f).warn_empty <==> (
        !f.anchor_tagged && !f.has_vzglyd_id && f.child_count == 0)),
{
}

/// Decides what the import does with a node.
pub fn plan_node(facts: &NodeFacts) -> (r: NodePlan)
    ensures
        r == node_plan(*facts),
{
    let bare = !facts.has_mesh && !facts.has_camera && facts.light.is_none();
    let anchor = bare && (facts.anchor_tagged || facts.has_vzglyd_id);
    let (import_light, light_warning) = match facts.light {
        Some(LightFacts::Directional { degenerate }) => if degenerate {
            (false, Some(NodeWarning::DegenerateLight))
        } else {
            (true, None)
        },
        Some(LightFacts::Point) => (false, Some(NodeWarning::PointLight)),
        Some(LightFacts::Spot) => (false, Some(NodeWarning::SpotLight)),
        None => (false, None),
    };
    NodePlan {
        warn_skin: facts.has_skin,
        warn_morph: facts.has_morph_weights,
        import_light,
        light_warning,
        anchor,
        warn_empty: !anchor && bare && facts.child_count == 0,
    }
}

/// The text of a node warning for the node shown as `node` in the scene `scene`.
pub open spec fn node_warning_text(w: NodeWarning, node: Seq<char>, scene: Seq<char>) -> Seq<char> {
    let tail = "' while importing scene '"@ + scene + "'"@;
    match w {
        NodeWarning::Skin => "ignored skin data on node '"@ + node + tail,
        NodeWarning::MorphWeights => "ignored morph target weights on node '"@ + node + tail,
        NodeWarning::DegenerateLight => "ignored directional light on node '"@ + node
            + "' with a degenerate transform while importing scene '"@ + scene + "'"@,
        NodeWarning::PointLight => "ignored unsupported point light on node '"@ + node + tail,
        NodeWarning::SpotLight => "ignored unsupported spot light on node '"@ + node + tail,
        NodeWarning::EmptyNode => "ignored unsupported empty node '"@ + node + tail,
    }
}

impl NodeWarning {
    /// The warning's text for the node shown as `node` in the scene `scene`.
    pub fn text(self, node: &str, scene: &str) -> (r: String)
        ensures
            r@ == node_warning_text(self, node@, scene@),
    {
        let head = match self {
            NodeWarning::Skin => "ignored skin data on node '",
            NodeWarning::MorphWeights => "ignored morph target weights on node '",
            NodeWarning::DegenerateLight => "ignored directional light on node '",
            NodeWarning::PointLight => "ignored unsupported point light on node '",
            NodeWarning::SpotLight => "ignored unsupported spot light on node '",
            NodeWarning::EmptyNode => "ignored unsupported empty node '",
        };
        let middle = match self {
            NodeWarning::DegenerateLight => "' with a degenerate transform while importing scene '",
            _ => "' while importing scene '",
        };
        let r = concat5(head, node, middle, scene, "'");
        proof {
            let tail = "' while importing scene '"@ + scene@ + "'"@;
            assert(r@ == head@ + node@ + middle@ + scene@ + "'"@);
            if !(self is DegenerateLight) {
                assert(head@ + node@ + tail == head@ + node@ + middle@ + scene@ + "'"@);
            }
        }
        r
    }
}

// ── Animations ───────────────────────────────────────────────────────────────

/// The transform path an animation channel targets on a node.
#[derive(Debug, Clone, Copy, PartialEq, Eq, Structural)]
pub enum AnimationPath {
    /// Node translation (XYZ, W unused).
    Translation,
    /// Node rotation as a quaternion (XYZW).
    Rotation,
    /// Node scale (XYZ, W unused).
    Scale,
}

/// A sampler's interpolation.
#[derive(Debug, Clone, Copy, PartialEq, Eq, Structural)]
pub enum Interpolation {
    Linear,
    Step,
    CubicSpline,
}

/// The property an animation channel targets.
#[derive(Debug, Clone, Copy, PartialEq, Eq, Structural)]
pub enum ChannelProperty {
    Translation,
    Rotation,
    Scale,
    MorphTargetWeights,
}

/// The output values an animation channel's sampler could read.
#[derive(Debug, Clone, Copy, PartialEq, Eq, Structural)]
pub enum ChannelOutputs {
    /// Translation, rotation or scale keyframes, this many.
    Transforms(usize),
    /// Morph target weights.
    MorphTargetWeights,
    /// Nothing could be read.
    Missing,
}

/// What the import decides on about one animation channel.
#[derive(Debug, Clone, Copy, PartialEq, Eq, Structural)]
pub struct ChannelFacts {
    /// The targeted node.
    pub node_index: usize,
    /// The sampler's interpolation.
    pub interpolation: Interpolation,
    /// The number of keyframe times, or `None` when they could not be read.
    pub input_count: Option<usize>,
    /// The targeted property.
    pub property: ChannelProperty,
    /// The output values.
    pub outputs: ChannelOutputs,
}

/// What the import does with one animation channel.
#[derive(Debug, Clone)]
pub struct ChannelVerdict {
    /// Warnings to report, in order.
    pub warnings: Vec<String>,
    /// Whether the channel's last keyframe time counts toward the clip's duration.
    pub counts_toward_duration: bool,
    /// The path the channel is imported with, or `None` when it is skipped.
    pub path: Option<AnimationPath>,
}

/// The name of an interpolation, as glTF's debug output spells it.
pub open spec fn interpolation_name(i: Interpolation) -> Seq<char> {
    match i {
        Interpolation::Linear => "Linear"@,
        Interpolation::Step => "Step"@,
        Interpolation::CubicSpline => "CubicSpline"@,
    }
}

/// The head shared by channel warnings of clip `clip`.
pub open spec fn clip_head(clip: Seq<char>) -> Seq<char> {
    "animation '"@ + clip + "': "@
}

/// The warning for an interpolation other than linear.
pub open spec fn interpolation_warning(clip: Seq<char>, node: nat, i: Interpolation) -> Seq<char> {
    clip_head(clip) + "node '"@ + decimal(node) + "' uses "@ + interpolation_name(i)
        + " interpolation; only LINEAR is supported — re-export with baked keyframes to avoid incorrect animation curves"@
}

/// A warning about the channel for `node`: the head, `channel for node '{node}'`, `tail`.
pub open spec fn channel_warning(clip: Seq<char>, node: nat, tail: Seq<char>) -> Seq<char> {
    clip_head(clip) + "channel for node '"@ + decimal(node) + "' "@ + tail
}

/// The warnings, duration flag and path for a channel of clip `clip`: a non-linear
/// interpolation is warned about but kept; a channel without keyframe times is skipped with
/// a warning, one with no keyframes silently; otherwise its last time counts toward the
/// clip's duration, and it is skipped with a warning for morph weights, missing outputs, or
/// as many values as times, and silently for morph weight outputs.
pub open spec fn channel_verdict(clip: Seq<char>, f: ChannelFacts) -> (Seq<Seq<char>>, bool, Option<AnimationPath>) {
    let lead = if f.interpolation != Interpolation::Linear {
        seq![interpolation_warning(clip, f.node_index as nat, f.interpolation)]
    } else {
        Seq::empty()
    };
    match f.input_count {
        None => (lead.push(channel_warning(clip, f.node_index as nat, "has no input times"@)), false, None),
        Some(times) => if times == 0 {
            (lead, false, None)
        } else {
            match f.property {
                ChannelProperty::MorphTargetWeights => (
                    lead.push(
                        clip_head(clip) + "skipping morph weight channel on node '"@ + decimal(
                            f.node_index as nat,
                        ) + "'"@,
                    ),
                    true,
                    None,
                ),
                _ => match f.outputs {
                    ChannelOutputs::MorphTargetWeights => (lead, true, None),
                    ChannelOutputs::Missing => (
                        lead.push(channel_warning(clip, f.node_index as nat, "has no output data"@)),
                        true,
                        None,
                    ),
                    ChannelOutputs::Transforms(values) => if values != times {
                        (
                            lead.push(
                                channel_warning(
                                    clip,
                                    f.node_index as nat,
                                    "has mismatched times ("@ + decimal(times as nat) + ") and values ("@
                                        + decimal(values as nat) + ")"@,
                                ),
                            ),
                            true,
                            None,
                        )
                    } else {
                        (
                            lead,
                            true,
                            Some(
                                match f.property {
                                    ChannelProperty::Translation => AnimationPath::Translation,
                                    ChannelProperty::Rotation => AnimationPath::Rotation,
                                    _ => AnimationPath::Scale,
                                },
                            ),
                        )
                    },
                },
            }
        },
    }
}

/// The head `animation '{clip}': ` of a channel warning.
fn clip_head_text(clip: &str) -> (r: String)
    ensures
        r@ == clip_head(clip@),
{
    let mut r = owned("animation '");
    r.append(clip);
    r.append("': ");
    r
}

/// The warning about the channel for `node` with the given tail.
fn channel_warning_text(clip: &str, node: usize, tail: &str) -> (r: String)
    ensures
        r@ == channel_warning(clip@, node as nat, tail@),
{
    let n = decimal_string(node);
    let mut r = clip_head_text(clip);
    r.append("channel for node '");
    r.append(n.as_str());
    r.append("' ");
    r.append(tail);
    r
}

/// Which channels are imported and how: a channel is imported exactly when it has keyframe
/// times, targets a transform (not morph weights) and has one transform value per time; it
/// is then imported on the path of the property it targets. Its times count toward the
/// clip's duration exactly when it has some.
pub proof fn channel_import_rule(clip: Seq<char>, f: ChannelFacts)
    ensures
        channel_verdict(clip, f).2 is Some <==> (f.input_count matches Some(t) && t > 0 && !(
        f.property is MorphTargetWeights) && f.outputs == ChannelOutputs::Transforms(t)),
        f.property is Translation ==> (channel_verdict(clip, f).2 is Some ==> channel_verdict(
            clip,
            f,
        ).2 == Some(AnimationPath::Translation)),
        f.property is Rotation ==> (channel_verdict(clip, f).2 is Some ==> channel_verdict(
            clip,
            f,
        ).2 == Some(AnimationPath::Rotation)),
        f.property is Scale ==> (channel_verdict(clip, f).2 is Some ==> channel_verdict(clip, f).2
            == Some(AnimationPath::Scale)),
        channel_verdict(clip, f).1 <==> (f.input_count matches Some(t) && t > 0),
{
}

/// How an imported scene is named: the selector's id wins, then the scene's name, then the
/// file stem, then `scene`; the label is the selector's, else the scene's name, else the
/// file stem; the entry camera is the selector's; the compile profile is the selector's,
/// else `default_world`.
pub proof fn scene_naming_rule(
    r: SceneIdentity,
    selector: Option<&SceneAssetRef>,
    scene_name: Option<Seq<char>>,
    file_stem: Option<Seq<char>>,
)
    requires
        identity_for(r, selector, scene_name, file_stem),
    ensures
        selector matches Some(sel) ==> (sel.id matches Some(id) ==> r.id@ == id@),
        (selector matches Some(sel) ==> sel.id is None) ==> (scene_name matches Some(n) ==> r.id@
            == n),
        (selector matches Some(sel) ==> sel.id is None) ==> (scene_name is None ==> (
        file_stem matches Some(f) ==> r.id@ == f)),
        (selector matches Some(sel) ==> sel.id is None) ==> (scene_name is None ==> (file_stem is None
            ==> r.id@ == "scene"@)),
        selector matches Some(sel) ==> (sel.label matches Some(l) ==> r.label matches Some(rl)
            && rl@ == l@),
        (selector matches Some(sel) ==> sel.label is None) ==> (scene_name matches Some(n)
            ==> r.label matches Some(rl) && rl@ == n),
        (selector matches Some(sel) ==> sel.label is None) ==> (scene_name is None ==> (
        file_stem matches Some(f) ==> r.label matches Some(rl) && rl@ == f)),
        (selector matches Some(sel) ==> sel.label is None) ==> (scene_name is None ==> (file_stem is None
            ==> r.label is None)),
        selector is None ==> r.entry_camera is None,
        selector matches Some(sel) ==> (sel.entry_camera is None <==> r.entry_camera is None),
        selector matches Some(sel) ==> (sel.entry_camera matches Some(c) ==> r.entry_camera matches Some(
            rc,
        ) && rc@ == c@),
        selector matches Some(sel) ==> (sel.compile_profile matches Some(c) ==> r.compile_profile matches Some(
            rc,
        ) && rc@ == c@),
        (selector matches Some(sel) ==> sel.compile_profile is None) ==> (r.compile_profile matches Some(
            rc,
        ) && rc@ == "default_world"@),
{
}

/// Which scene a parsed GLB file imports: a file without its binary chunk is refused first,
/// then one with a buffer outside the file, then one without scenes; otherwise the default
/// scene it names, else its first scene.
pub proof fn scene_choice_rule(o: GlbOutlineView)
    ensures
        o.blob_len is None ==> chosen_scene(o) == Err::<usize, GlbProblem>(GlbProblem::MissingBlob),
        o.blob_len is Some ==> ((exists|i: int| 0 <= i < o.buffer_uris.len() && o.buffer_uris[i] is Some)
            ==> chosen_scene(o) == Err::<usize, GlbProblem>(GlbProblem::ExternalBuffer)),
        o.blob_len is Some && (forall|i: int| 0 <= i < o.buffer_uris.len() ==> o.buffer_uris[i] is None)
            ==> chosen_scene(o) == (match o.default_scene {
            Some(d) => Ok(d),
            None => if o.scene_names.len() > 0 {
                Ok(0)
            } else {
                Err(GlbProblem::NoScene)
            },
        }),
{
}

/// Decides what the import does with an animation channel of the clip named `clip`.
pub fn judge_channel(clip: &str, facts: &ChannelFacts) -> (r: ChannelVerdict)
    ensures
        (r.warnings@.map_values(|w: String| w@), r.counts_toward_duration, r.path) == channel_verdict(
            clip@,
            *facts,
        ),
{
    let ghost verdict = channel_verdict(clip@, *facts);
    let mut warnings: Vec<String> = Vec::new();
    let node = facts.node_index;
    if facts.interpolation != Interpolation::Linear {
        let name = match facts.interpolation {
            Interpolation::Linear => "Linear",
            Interpolation::Step => "Step",
            Interpolation::CubicSpline => "CubicSpline",
        };
        let n = decimal_string(node);
        let mut w = clip_head_text(clip);
        w.append("node '");
        w.append(n.as_str());
        w.append("' uses ");
        w.append(name);
        w.append(
            " interpolation; only LINEAR is supported — re-export with baked keyframes to avoid incorrect animation curves",
        );
        warnings.push(w);
    }
    let ghost lead = warnings@.map_values(|w: String| w@);
    assert(lead == verdict.0.take(lead.len() as int)) by {
        if facts.interpolation != Interpolation::Linear {
            assert(lead =~= seq![interpolation_warning(clip@, node as nat, facts.interpolation)]);
        } else {
            assert(lead =~= Seq::<Seq<char>>::empty());
        }
    }
    let times = match facts.input_count {
        None => {
            warnings.push(channel_warning_text(clip, node, "has no input times"));
            assert(warnings@.map_values(|w: String| w@) =~= verdict.0);
            return ChannelVerdict { warnings, counts_toward_duration: false, path: None };
        },
        Some(t) => t,
    };
    if times == 0 {
        assert(warnings@.map_values(|w: String| w@) =~= verdict.0);
        return ChannelVerdict { warnings, counts_toward_duration: false, path: None };
    }
    let path = match facts.property {
        ChannelProperty::Translation => AnimationPath::Translation,
        ChannelProperty::Rotation => AnimationPath::Rotation,
        ChannelProperty::Scale => AnimationPath::Scale,
        ChannelProperty::MorphTargetWeights => {
            let n = decimal_string(node);
            let mut w = clip_head_text(clip);
            w.append("skipping morph weight channel on node '");
            w.append(n.as_str());
            w.append("'");
            warnings.push(w);
            assert(warnings@.map_values(|w: String| w@) =~= verdict.0);
            return ChannelVerdict { warnings, counts_toward_duration: true, path: None };
        },
    };
    match facts.outputs {
        ChannelOutputs::MorphTargetWeights => {
            assert(warnings@.map_values(|w: String| w@) =~= verdict.0);
            ChannelVerdict { warnings, counts_toward_duration: true, path: None }
        },
        ChannelOutputs::Missing => {
            warnings.push(channel_warning_text(clip, node, "has no output data"));
            assert(warnings@.map_values(|w: String| w@) =~= verdict.0);
            ChannelVerdict { warnings, counts_toward_duration: true, path: None }
        },
        ChannelOutputs::Transforms(values) => {
            if values != times {
                let t = decimal_string(times);
                let v = decimal_string(values);
                let tail = concat5("has mismatched times (", t.as_str(), ") and values (", v.as_str(), ")");
                warnings.push(channel_warning_text(clip, node, tail.as_str()));
                assert(warnings@.map_values(|w: String| w@) =~= verdict.0);
                ChannelVerdict { warnings, counts_toward_duration: true, path: None }
            } else {
                assert(warnings@.map_values(|w: String| w@) =~= verdict.0);
                ChannelVerdict { warnings, counts_toward_duration: true, path: Some(path) }
            }
        },
    }
}

/// The name of clip `clip_index`: its own, else `animation_{clip_index}`.
pub fn clip_name(name: Option<&str>, clip_index: usize) -> (r: String)
    ensures
        Some(r@) == first_of(str_of(name), Some(numbered("animation_"@, clip_index as nat))),
{
    match name {
        Some(x) => owned(x),
        None => numbered_text("animation_", clip_index),
    }
}

// ── Extras ───────────────────────────────────────────────────────────────────

/// Metadata read from a glTF element's `extras` object.
#[derive(Debug, Clone)]
pub struct ImportedExtras {
    /// The members of the extras object.
    pub raw: Vec<(String, JsonValue)>,
    /// `vzglyd_id`, when a string.
    pub vzglyd_id: Option<String>,
    /// `vzglyd_pipeline`, when a string.
    pub vzglyd_pipeline: Option<String>,
    /// `vzglyd_material`, when a string.
    pub vzglyd_material: Option<String>,
    /// `vzglyd_anchor`, when a string.
    pub vzglyd_anchor: Option<String>,
    /// Whether `vzglyd_anchor` is a string or `true`.
    pub vzglyd_anchor_tagged: bool,
    /// Whether `vzglyd_hidden` is `true`.
    pub vzglyd_hidden: bool,
    /// Whether `vzglyd_billboard` is `true`.
    pub vzglyd_billboard: bool,
    /// Whether `vzglyd_entry_camera` is `true`.
    pub vzglyd_entry_camera: bool,
}

/// Extras with nothing in them.
pub open spec fn no_extras(e: ImportedExtras) -> bool {
    &&& e.raw@.len() == 0
    &&& e.vzglyd_id is None
    &&& e.vzglyd_pipeline is None
    &&& e.vzglyd_material is None
    &&& e.vzglyd_anchor is None
    &&& !e.vzglyd_anchor_tagged
    &&& !e.vzglyd_hidden
    &&& !e.vzglyd_billboard
    &&& !e.vzglyd_entry_camera
}

impl Default for ImportedExtras {
    fn default() -> (r: Self)
        ensures
            no_extras(r),
    {
        ImportedExtras {
            raw: Vec::new(),
            vzglyd_id: None,
            vzglyd_pipeline: None,
            vzglyd_material: None,
            vzglyd_anchor: None,
            vzglyd_anchor_tagged: false,
            vzglyd_hidden: false,
            vzglyd_billboard: false,
            vzglyd_entry_camera: false,
        }
    }
}

/// A member of the extras that is ignored, with a warning. `member` is its position among
/// the members.
#[derive(Debug, Clone)]
pub enum ExtraWarning {
    /// The extras are not an object.
    NotObject,
    /// A member that should be a string is not.
    NotString { key: String, member: usize },
    /// A member that should be a boolean is not.
    NotBool { key: String, member: usize },
    /// `vzglyd_anchor` is neither a string nor a boolean.
    UnsupportedAnchor { member: usize },
}

/// An extras warning as a value.
pub enum ExtraWarningView {
    NotObject,
    NotString(Seq<char>, nat),
    NotBool(Seq<char>, nat),
    UnsupportedAnchor(nat),
}

impl View for ExtraWarning {
    type V = ExtraWarningView;

    open spec fn view(&self) -> ExtraWarningView {
        match self {
            ExtraWarning::NotObject => ExtraWarningView::NotObject,
            ExtraWarning::NotString { key, member } => ExtraWarningView::NotString(key@, *member as nat),
            ExtraWarning::NotBool { key, member } => ExtraWarningView::NotBool(key@, *member as nat),
            ExtraWarning::UnsupportedAnchor { member } => ExtraWarningView::UnsupportedAnchor(*member as nat),
        }
    }
}

/// The value of the first member named `key`.
pub open spec fn extra_value(raw: Seq<(String, JsonValue)>, key: Seq<char>) -> Option<JsonValue> {
    match member_index(raw, key) {
        Some(i) => Some(raw[i].1),
        None => None,
    }
}

/// The member `key` when it is a string.
pub open spec fn string_extra(raw: Seq<(String, JsonValue)>, key: Seq<char>) -> Option<Seq<char>> {
    match extra_value(raw, key) {
        Some(JsonValue::String(s)) => Some(s@),
        _ => None,
    }
}

/// Whether the member `key` is `true`.
pub open spec fn bool_extra(raw: Seq<(String, JsonValue)>, key: Seq<char>) -> bool {
    extra_value(raw, key) == Some(JsonValue::Bool(true))
}

/// Whether `vzglyd_anchor` tags the element: a string, or `true`.
pub open spec fn anchor_tag(raw: Seq<(String, JsonValue)>) -> bool {
    match extra_value(raw, "vzglyd_anchor"@) {
        Some(JsonValue::String(_)) => true,
        Some(JsonValue::Bool(b)) => b,
        _ => false,
    }
}

/// The warning for member `key` when it is present and not a string.
pub open spec fn string_warning(raw: Seq<(String, JsonValue)>, key: Seq<char>) -> Seq<ExtraWarningView> {
    match member_index(raw, key) {
        Some(i) => if raw[i].1 is String {
            Seq::empty()
        } else {
            seq![ExtraWarningView::NotString(key, i as nat)]
        },
        None => Seq::empty(),
    }
}

/// The warning for member `key` when it is present and not a boolean.
pub open spec fn bool_warning(raw: Seq<(String, JsonValue)>, key: Seq<char>) -> Seq<ExtraWarningView> {
    match member_index(raw, key) {
        Some(i) => if raw[i].1 is Bool {
            Seq::empty()
        } else {
            seq![ExtraWarningView::NotBool(key, i as nat)]
        },
        None => Seq::empty(),
    }
}

/// The warning for `vzglyd_anchor` when it is present and neither a string nor a boolean.
pub open spec fn anchor_warning(raw: Seq<(String, JsonValue)>) -> Seq<ExtraWarningView> {
    match member_index(raw, "vzglyd_anchor"@) {
        Some(i) => if raw[i].1 is String || raw[i].1 is Bool {
            Seq::empty()
        } else {
            seq![ExtraWarningView::UnsupportedAnchor(i as nat)]
        },
        None => Seq::empty(),
    }
}

/// The warnings of an extras object, in the order the members are read: the three string
/// members, the anchor (read twice, once for its text and once for its tag), then the three
/// boolean members.
pub open spec fn extras_warnings(raw: Seq<(String, JsonValue)>) -> Seq<ExtraWarningView> {
    string_warning(raw, "vzglyd_id"@) + string_warning(raw, "vzglyd_pipeline"@) + string_warning(
        raw,
        "vzglyd_material"@,
    ) + anchor_warning(raw) + anchor_warning(raw) + bool_warning(raw, "vzglyd_hidden"@) + bool_warning(
        raw,
        "vzglyd_billboard"@,
    ) + bool_warning(raw, "vzglyd_entry_camera"@)
}

/// The views of a list of warnings.
pub open spec fn warning_views(v: Seq<ExtraWarning>) -> Seq<ExtraWarningView> {
    v.map_values(|w: ExtraWarning| w@)
}

/// Reads the string member `key`, recording a warning when it is not a string.
fn read_string(raw: &Vec<(String, JsonValue)>, key: &str, warnings: &mut Vec<ExtraWarning>) -> (r: Option<String>)
    ensures
        text_of(r) == string_extra(raw@, key@),
        warning_views(final(warnings)@) == warning_views(old(warnings)@) + string_warning(raw@, key@),
{
    let ghost before = warnings@;
    match find_member(raw, key) {
        Some(i) => match &raw[i].1 {
            JsonValue::String(s) => {
                assert(warning_views(warnings@) =~= warning_views(before) + string_warning(raw@, key@));
                Some(owned(s.as_str()))
            },
            _ => {
                warnings.push(ExtraWarning::NotString { key: owned(key), member: i });
                assert(warning_views(warnings@) =~= warning_views(before) + string_warning(raw@, key@));
                None
            },
        },
        None => {
            assert(warning_views(warnings@) =~= warning_views(before) + string_warning(raw@, key@));
            None
        },
    }
}

/// Reads the boolean member `key`, recording a warning when it is not a boolean.
fn read_bool(raw: &Vec<(String, JsonValue)>, key: &str, warnings: &mut Vec<ExtraWarning>) -> (r: bool)
    ensures
        r == bool_extra(raw@, key@),
        warning_views(final(warnings)@) == warning_views(old(warnings)@) + bool_warning(raw@, key@),
{
    let ghost before = warnings@;
    match find_member(raw, key) {
        Some(i) => match &raw[i].1 {
            JsonValue::Bool(b) => {
                assert(warning_views(warnings@) =~= warning_views(before) + bool_warning(raw@, key@));
                *b
            },
            _ => {
                warnings.push(ExtraWarning::NotBool { key: owned(key), member: i });
                assert(warning_views(warnings@) =~= warning_views(before) + bool_warning(raw@, key@));
                false
            },
        },
        None => {
            assert(warning_views(warnings@) =~= warning_views(before) + bool_warning(raw@, key@));
            false
        },
    }
}

/// Reads `vzglyd_anchor` as text, recording a warning when it is neither a string nor a
/// boolean.
fn read_anchor(raw: &Vec<(String, JsonValue)>, warnings: &mut Vec<ExtraWarning>) -> (r: Option<String>)
    ensures
        text_of(r) == string_extra(raw@, "vzglyd_anchor"@),
        warning_views(final(warnings)@) == warning_views(old(warnings)@) + anchor_warning(raw@),
{
    let ghost before = warnings@;
    match find_member(raw, "vzglyd_anchor") {
        Some(i) => match &raw[i].1 {
            JsonValue::String(s) => {
                assert(warning_views(warnings@) =~= warning_views(before) + anchor_warning(raw@));
                Some(owned(s.as_str()))
            },
            JsonValue::Bool(_) => {
                assert(warning_views(warnings@) =~= warning_views(before) + anchor_warning(raw@));
                None
            },
            _ => {
                warnings.push(ExtraWarning::UnsupportedAnchor { member: i });
                assert(warning_views(warnings@) =~= warning_views(before) + anchor_warning(raw@));
                None
            },
        },
        None => {
            assert(warning_views(warnings@) =~= warning_views(before) + anchor_warning(raw@));
            None
        },
    }
}

/// Reads whether `vzglyd_anchor` tags the element, recording a warning when it is neither a
/// string nor a boolean.
fn read_anchor_tag(raw: &Vec<(String, JsonValue)>, warnings: &mut Vec<ExtraWarning>) -> (r: bool)
    ensures
        r == anchor_tag(raw@),
        warning_views(final(warnings)@) == warning_views(old(warnings)@) + anchor_warning(raw@),
{
    let ghost before = warnings@;
    match find_member(raw, "vzglyd_anchor") {
        Some(i) => match &raw[i].1 {
            JsonValue::String(_) => {
                assert(warning_views(warnings@) =~= warning_views(before) + anchor_warning(raw@));
                true
            },
            JsonValue::Bool(b) => {
                assert(warning_views(warnings@) =~= warning_views(before) + anchor_warning(raw@));
                *b
            },
            _ => {
                warnings.push(ExtraWarning::UnsupportedAnchor { member: i });
                assert(warning_views(warnings@) =~= warning_views(before) + anchor_warning(raw@));
                false
            },
        },
        None => {
            assert(warning_views(warnings@) =~= warning_views(before) + anchor_warning(raw@));
            false
        },
    }
}

/// Reads the metadata of an element's extras. Extras that are not an object are ignored with
/// a warning; members of the wrong type are ignored with a warning each.
pub fn read_extras(extras: JsonValue) -> (r: (ImportedExtras, Vec<ExtraWarning>))
    ensures
        match extras {
            JsonValue::Object(raw) => {
                &&& r.0.raw@ == raw@
                &&& text_of(r.0.vzglyd_id) == string_extra(raw@, "vzglyd_id"@)
                &&& text_of(r.0.vzglyd_pipeline) == string_extra(raw@, "vzglyd_pipeline"@)
                &&& text_of(r.0.vzglyd_material) == string_extra(raw@, "vzglyd_material"@)
                &&& text_of(r.0.vzglyd_anchor) == string_extra(raw@, "vzglyd_anchor"@)
                &&& r.0.vzglyd_anchor_tagged == anchor_tag(raw@)
                &&& r.0.vzglyd_hidden == bool_extra(raw@, "vzglyd_hidden"@)
                &&& r.0.vzglyd_billboard == bool_extra(raw@, "vzglyd_billboard"@)
                &&& r.0.vzglyd_entry_camera == bool_extra(raw@, "vzglyd_entry_camera"@)
                &&& warning_views(r.1@) == extras_warnings(raw@)
            },
            _ => no_extras(r.0) && warning_views(r.1@) == seq![ExtraWarningView::NotObject],
        },
{
    let raw = match extras {
        JsonValue::Object(raw) => raw,
        _ => {
            let mut warnings: Vec<ExtraWarning> = Vec::new();
            warnings.push(ExtraWarning::NotObject);
            assert(warning_views(warnings@) =~= seq![ExtraWarningView::NotObject]);
            return (ImportedExtras::default(), warnings);
        },
    };
    let mut warnings: Vec<ExtraWarning> = Vec::new();
    assert(warning_views(warnings@) =~= Seq::<ExtraWarningView>::empty());
    let vzglyd_id = read_string(&raw, "vzglyd_id", &mut warnings);
    let vzglyd_pipeline = read_string(&raw, "vzglyd_pipeline", &mut warnings);
    let vzglyd_material = read_string(&raw, "vzglyd_material", &mut warnings);
    let vzglyd_anchor = read_anchor(&raw, &mut warnings);
    let vzglyd_anchor_tagged = read_anchor_tag(&raw, &mut warnings);
    let vzglyd_hidden = read_bool(&raw, "vzglyd_hidden", &mut warnings);
    let vzglyd_billboard = read_bool(&raw, "vzglyd_billboard", &mut warnings);
    let vzglyd_entry_camera = read_bool(&raw, "vzglyd_entry_camera", &mut warnings);
    (
        ImportedExtras {
            raw,
            vzglyd_id,
            vzglyd_pipeline,
            vzglyd_material,
            vzglyd_anchor,
            vzglyd_anchor_tagged,
            vzglyd_hidden,
            vzglyd_billboard,
            vzglyd_entry_camera,
        },
        warnings,
    )
}

/// The text of an extras warning on `context`, with `value` the offending member written
/// out as JSON.
pub open spec fn extra_warning_text(w: ExtraWarningView, context: Seq<char>, value: Seq<char>) -> Seq<char> {
    match w {
        ExtraWarningView::NotObject => "ignored non-object extras on "@ + context,
        ExtraWarningView::NotString(key, _) => "ignored non-string extras key '"@ + key + "' on "@ + context
            + ": "@ + value,
        ExtraWarningView::NotBool(key, _) => "ignored non-bool extras key '"@ + key + "' on "@ + context + ": "@
            + value,
        ExtraWarningView::UnsupportedAnchor(_) => "ignored unsupported extras key 'vzglyd_anchor' on "@ + context
            + ": "@ + value,
    }
}

impl ExtraWarning {
    /// The warning's text on `context`, with `value` the offending member written out as
    /// JSON (unused for extras that are not an object).
    pub fn text(&self, context: &str, value: &str) -> (r: String)
        ensures
            r@ == extra_warning_text(self@, context@, value@),
    {
        match self {
            ExtraWarning::NotObject => concat2("ignored non-object extras on ", context),
            ExtraWarning::NotString { key, .. } => {
                let mut r = concat4("ignored non-string extras key '", key.as_str(), "' on ", context);
                r.append(": ");
                r.append(value);
                r
            },
            ExtraWarning::NotBool { key, .. } => {
                let mut r = concat4("ignored non-bool extras key '", key.as_str(), "' on ", context);
                r.append(": ");
                r.append(value);
                r
            },
            ExtraWarning::UnsupportedAnchor { .. } => concat4(
                "ignored unsupported extras key 'vzglyd_anchor' on ",
                context,
                ": ",
                value,
            ),
        }
    }
}

/// The element whose extras are read.
#[derive(Debug, Clone, Copy, PartialEq, Eq, Structural)]
pub enum ExtrasOwner {
    Scene,
    Node,
    MaterialOnNode,
}

/// How warnings name the element `name` of kind `owner`.
pub open spec fn extras_context_text(owner: ExtrasOwner, name: Seq<char>) -> Seq<char> {
    match owner {
        ExtrasOwner::Scene => "scene '"@ + name + "'"@,
        ExtrasOwner::Node => "node '"@ + name + "'"@,
        ExtrasOwner::MaterialOnNode => "material on node '"@ + name + "'"@,
    }
}

/// How warnings name the element `name` of kind `owner`.
pub fn extras_context(owner: ExtrasOwner, name: &str) -> (r: String)
    ensures
        r@ == extras_context_text(owner, name@),
{
    match owner {
        ExtrasOwner::Scene => concat3("scene '", name, "'"),
        ExtrasOwner::Node => concat3("node '", name, "'"),
        ExtrasOwner::MaterialOnNode => concat3("material on node '", name, "'"),
    }
}

/// The class hint of a material: the `vzglyd_material` extra, else the material's name.
pub fn material_class_hint(extras: &ImportedExtras, material_name: Option<&str>) -> (r: Option<String>)
    ensures
        text_of(r) == first_of(text_of(extras.vzglyd_material), str_of(material_name)),
{
    match &extras.vzglyd_material {
        Some(m) => Some(owned(m.as_str())),
        None => own_text(material_name),
    }
}

/// The indices a primitive without an index list is drawn with: `0` to `count - 1`.
pub fn sequential_indices(count: u32) -> (r: Vec<u32>)
    ensures
        r@.len() == count,
        forall|i: int| 0 <= i < count ==> #[trigger] r@[i] == i,
{
    let mut r: Vec<u32> = Vec::new();
    let mut i: u32 = 0;
    while i < count
        invariant
            i <= count,
            r@.len() == i,
            forall|j: int| 0 <= j < i ==> #[trigger] r@[j] == j,
        decreases count - i,
    {
        r.push(i);
        i += 1;
    }
    r
}

} // verus!
