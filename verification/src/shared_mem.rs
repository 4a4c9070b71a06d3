//! Shared-memory layouts of the slide wire format (version 2).
//!
//! A slide writes a fixed-size [`SlideSpecHeader`] at the start of a buffer,
//! followed by strings and arrays; the header holds their offsets and sizes.
//! Every record is a run of little-endian `u32` words, laid out in field order.
//!
//! ```text
//! ┌─────────────────┬─────────────────┬─────────────────┐
//! │ SlideSpecHeader │ String data     │ Array data      │
//! │ (fixed size)    │ (sequential)    │ (sequential)    │
//! └─────────────────┴─────────────────┴─────────────────┘
//! ```

use vstd::prelude::*;
use vstd::string::StringSliceAdditionalSpecFns;

verus! {

/// Wire format version for the shared memory layout.
pub const WIRE_VERSION: u32 = 2;

/// Maximum size for a single string in shared memory (64KB).
pub const MAX_STRING_LEN: u32 = 65536;

/// Maximum number of elements in any array (1M elements).
pub const MAX_ARRAY_LEN: u32 = 1048576;

/// Number of `u32` words in a [`SlideSpecHeader`].
pub const HEADER_WORDS: usize = 33;

/// Size in bytes of a [`SlideSpecHeader`].
pub const HEADER_SIZE: u32 = 132;

// ── Words and bytes ──────────────────────────────────────────────────────────

/// The four little-endian bytes of `w`.
pub open spec fn word_bytes(w: u32) -> Seq<u8> {
    seq![
        (w % 256) as u8,
        ((w / 256) % 256) as u8,
        ((w / 65536) % 256) as u8,
        (w / 16777216) as u8,
    ]
}

/// The little-endian encoding of a run of words.
pub open spec fn le_bytes(ws: Seq<u32>) -> Seq<u8>
    decreases ws.len(),
{
    if ws.len() == 0 {
        Seq::empty()
    } else {
        le_bytes(ws.drop_last()) + word_bytes(ws.last())
    }
}

/// The little-endian word stored at byte `at` of `mem`.
pub open spec fn word_at(mem: Seq<u8>, at: int) -> u32 {
    (mem[at] as int + 256 * (mem[at + 1] as int) + 65536 * (mem[at + 2] as int) + 16777216 * (
    mem[at + 3] as int)) as u32
}

/// The `n` little-endian words starting at byte `at` of `mem`.
pub open spec fn words_at(mem: Seq<u8>, at: int, n: nat) -> Seq<u32> {
    Seq::new(n, |k: int| word_at(mem, at + 4 * k))
}

/// Reads the little-endian word at byte `at`.
pub fn read_word(mem: &[u8], at: usize) -> (w: u32)
    requires
        at + 4 <= mem@.len(),
    ensures
        w == word_at(mem@, at as int),
{
    let b0 = mem[at] as u32;
    let b1 = mem[at + 1] as u32;
    let b2 = mem[at + 2] as u32;
    let b3 = mem[at + 3] as u32;
    b0 + 256 * b1 + 65536 * b2 + 16777216 * b3
}

/// Reads `n` little-endian words starting at byte `at`.
pub fn read_words(mem: &[u8], at: usize, n: usize) -> (ws: Vec<u32>)
    requires
        at + 4 * n <= mem@.len(),
    ensures
        ws@ == words_at(mem@, at as int, n as nat),
{
    let mut ws: Vec<u32> = Vec::new();
    let mut k: usize = 0;
    let len = mem.len();
    while k < n
        invariant
            len == mem@.len(),
            at + 4 * n <= mem@.len(),
            k <= n,
            ws@.len() == k,
            forall|j: int| 0 <= j < k ==> ws@[j] == word_at(mem@, at + 4 * j),
        decreases n - k,
    {
        ws.push(read_word(mem, at + 4 * k));
        k += 1;
    }
    assert(ws@ =~= words_at(mem@, at as int, n as nat));
    ws
}

proof fn lemma_word_roundtrip(w: u32)
    ensures
        word_at(word_bytes(w), 0) == w,
{
    let b = word_bytes(w);
    assert(b[0] as int == w % 256);
    assert(b[1] as int == (w / 256) % 256);
    assert(b[2] as int == (w / 65536) % 256);
    assert(b[3] as int == w / 16777216);
    assert((w % 256) + 256 * ((w / 256) % 256) + 65536 * ((w / 65536) % 256) + 16777216 * (w
        / 16777216) == w) by (nonlinear_arith);
}

pub proof fn lemma_le_bytes_len(ws: Seq<u32>)
    ensures
        le_bytes(ws).len() == 4 * ws.len(),
    decreases ws.len(),
{
    if ws.len() > 0 {
        lemma_le_bytes_len(ws.drop_last());
    }
}

/// Decoding the encoding of a run of words gives the words back.
pub proof fn lemma_le_bytes_roundtrip(ws: Seq<u32>, k: int)
    requires
        0 <= k < ws.len(),
    ensures
        le_bytes(ws).len() == 4 * ws.len(),
        word_at(le_bytes(ws), 4 * k) == ws[k],
    decreases ws.len(),
{
    lemma_le_bytes_len(ws);
    lemma_le_bytes_len(ws.drop_last());
    let front = le_bytes(ws.drop_last());
    let last = word_bytes(ws.last());
    if k < ws.len() - 1 {
        lemma_le_bytes_roundtrip(ws.drop_last(), k);
        assert(le_bytes(ws)[4 * k] == front[4 * k]);
        assert(le_bytes(ws)[4 * k + 1] == front[4 * k + 1]);
        assert(le_bytes(ws)[4 * k + 2] == front[4 * k + 2]);
        assert(le_bytes(ws)[4 * k + 3] == front[4 * k + 3]);
    } else {
        lemma_word_roundtrip(ws.last());
        assert(le_bytes(ws)[4 * k] == last[0]);
        assert(le_bytes(ws)[4 * k + 1] == last[1]);
        assert(le_bytes(ws)[4 * k + 2] == last[2]);
        assert(le_bytes(ws)[4 * k + 3] == last[3]);
    }
}

/// Appends the little-endian bytes of `w`.
fn push_word(buf: &mut Vec<u8>, w: u32)
    ensures
        final(buf)@ == old(buf)@ + word_bytes(w),
{
    buf.push((w % 256) as u8);
    buf.push(((w / 256) % 256) as u8);
    buf.push(((w / 65536) % 256) as u8);
    buf.push((w / 16777216) as u8);
    assert(final(buf)@ =~= old(buf)@ + word_bytes(w));
}

/// The little-endian encoding of `ws`.
pub fn encode_words(ws: &Vec<u32>) -> (b: Vec<u8>)
    ensures
        b@ == le_bytes(ws@),
{
    let mut b: Vec<u8> = Vec::new();
    let mut i: usize = 0;
    while i < ws.len()
        invariant
            i <= ws@.len(),
            b@ == le_bytes(ws@.take(i as int)),
        decreases ws@.len() - i,
    {
        push_word(&mut b, ws[i]);
        assert(ws@.take(i + 1).drop_last() == ws@.take(i as int));
        i += 1;
    }
    assert(ws@.take(ws@.len() as int) == ws@);
    b
}

// ── Records ──────────────────────────────────────────────────────────────────

/// A fixed-size record of the wire format: a run of `u32` words.
pub trait WireRecord: Sized {
    /// Number of words in the record.
    spec fn spec_word_count() -> nat;

    /// The record the words `ws` encode.
    spec fn spec_from_words(ws: Seq<u32>) -> Self;

    /// Number of words in the record.
    fn word_count() -> (n: usize)
        ensures
            n as nat == Self::spec_word_count(),
            0 < n <= 64,
    ;

    /// Decodes a record from its words.
    fn from_words(ws: &Vec<u32>) -> (r: Self)
        requires
            ws@.len() == Self::spec_word_count(),
        ensures
            r == Self::spec_from_words(ws@),
    ;
}

/// Resource limits (same field order as the slide SDK's limits, plus padding).
#[derive(Debug, Clone, Copy, Default, PartialEq, Eq, Structural)]
pub struct LimitsMem {
    /// Maximum vertices per mesh.
    pub max_vertices: u32,
    /// Maximum indices per mesh.
    pub max_indices: u32,
    /// Maximum static meshes.
    pub max_static_meshes: u32,
    /// Maximum dynamic meshes.
    pub max_dynamic_meshes: u32,
    /// Maximum textures.
    pub max_textures: u32,
    /// Maximum bytes per texture.
    pub max_texture_bytes: u32,
    /// Maximum texture dimension.
    pub max_texture_dim: u32,
    /// Padding.
    pub _padding: u32,
}

/// Slide specification header in shared memory.
///
/// Fixed size; holds offsets and lengths of the variable-size data stored
/// elsewhere in linear memory.
#[derive(Debug, Clone, Copy, PartialEq, Eq)]
pub struct SlideSpecHeader {
    /// Wire format version (must be 2).
    pub version: u32,
    /// Pointer to slide name string.
    pub name_ptr: u32,
    /// Length of slide name string in bytes.
    pub name_len: u32,
    /// Resource limits (inline, fixed size).
    pub limits: LimitsMem,
    /// Scene space (0 = Screen2D, 1 = World3D).
    pub scene_space: u32,
    /// Offset to camera path (0 = None).
    pub camera_path_offset: u32,
    /// Number of textures.
    pub textures_count: u32,
    /// Offset to texture array.
    pub textures_offset: u32,
    /// Number of static meshes.
    pub static_meshes_count: u32,
    /// Offset to static mesh array.
    pub static_meshes_offset: u32,
    /// Number of dynamic mesh slots.
    pub dynamic_meshes_count: u32,
    /// Offset to dynamic mesh array.
    pub dynamic_meshes_offset: u32,
    /// Number of draw specs.
    pub draws_count: u32,
    /// Offset to draw spec array.
    pub draws_offset: u32,
    /// Number of overlay vertices (0 = no overlay).
    pub overlay_vertices_count: u32,
    /// Offset to overlay vertices.
    pub overlay_vertices_offset: u32,
    /// Number of overlay indices.
    pub overlay_indices_count: u32,
    /// Offset to overlay indices.
    pub overlay_indices_offset: u32,
    /// Reserved for future use (padding).
    pub _reserved: [u32; 8],
}

impl Default for SlideSpecHeader {
    fn default() -> (h: Self)
        ensures
            h.version == WIRE_VERSION,
            h.name_ptr == 0 && h.name_len == 0 && h.scene_space == 0,
            h.limits == (LimitsMem {
                max_vertices: 0,
                max_indices: 0,
                max_static_meshes: 0,
                max_dynamic_meshes: 0,
                max_textures: 0,
                max_texture_bytes: 0,
                max_texture_dim: 0,
                _padding: 0,
            }),
            h.camera_path_offset == 0 && h.textures_count == 0 && h.textures_offset == 0,
            h.static_meshes_count == 0 && h.static_meshes_offset == 0,
            h.dynamic_meshes_count == 0 && h.dynamic_meshes_offset == 0,
            h.draws_count == 0 && h.draws_offset == 0,
            h.overlay_vertices_count == 0 && h.overlay_vertices_offset == 0,
            h.overlay_indices_count == 0 && h.overlay_indices_offset == 0,
            h._reserved@ == (seq![0u32, 0, 0, 0, 0, 0, 0, 0]),
    {
        SlideSpecHeader {
            version: WIRE_VERSION,
            name_ptr: 0,
            name_len: 0,
            limits: LimitsMem {
                max_vertices: 0,
                max_indices: 0,
                max_static_meshes: 0,
                max_dynamic_meshes: 0,
                max_textures: 0,
                max_texture_bytes: 0,
                max_texture_dim: 0,
                _padding: 0,
            },
            scene_space: 0,
            camera_path_offset: 0,
            textures_count: 0,
            textures_offset: 0,
            static_meshes_count: 0,
            static_meshes_offset: 0,
            dynamic_meshes_count: 0,
            dynamic_meshes_offset: 0,
            draws_count: 0,
            draws_offset: 0,
            overlay_vertices_count: 0,
            overlay_vertices_offset: 0,
            overlay_indices_count: 0,
            overlay_indices_offset: 0,
            _reserved: [0u32; 8],
        }
    }
}

/// The array of eight reserved words holding `ws`.
pub open spec fn reserved_words(ws: Seq<u32>) -> [u32; 8] {
    choose|a: [u32; 8]| a@ == ws
}

/// The words of a header, in field order.
pub open spec fn header_words(h: SlideSpecHeader) -> Seq<u32> {
    seq![
        h.version,
        h.name_ptr,
        h.name_len,
        h.limits.max_vertices,
        h.limits.max_indices,
        h.limits.max_static_meshes,
        h.limits.max_dynamic_meshes,
        h.limits.max_textures,
        h.limits.max_texture_bytes,
        h.limits.max_texture_dim,
        h.limits._padding,
        h.scene_space,
        h.camera_path_offset,
        h.textures_count,
        h.textures_offset,
        h.static_meshes_count,
        h.static_meshes_offset,
        h.dynamic_meshes_count,
        h.dynamic_meshes_offset,
        h.draws_count,
        h.draws_offset,
        h.overlay_vertices_count,
        h.overlay_vertices_offset,
        h.overlay_indices_count,
        h.overlay_indices_offset,
    ] + h._reserved@
}

impl WireRecord for SlideSpecHeader {
    open spec fn spec_word_count() -> nat {
        33
    }

    open spec fn spec_from_words(ws: Seq<u32>) -> Self {
        SlideSpecHeader {
            version: ws[0],
            name_ptr: ws[1],
            name_len: ws[2],
            limits: LimitsMem {
                max_vertices: ws[3],
                max_indices: ws[4],
                max_static_meshes: ws[5],
                max_dynamic_meshes: ws[6],
                max_textures: ws[7],
                max_texture_bytes: ws[8],
                max_texture_dim: ws[9],
                _padding: ws[10],
            },
            scene_space: ws[11],
            camera_path_offset: ws[12],
            textures_count: ws[13],
            textures_offset: ws[14],
            static_meshes_count: ws[15],
            static_meshes_offset: ws[16],
            dynamic_meshes_count: ws[17],
            dynamic_meshes_offset: ws[18],
            draws_count: ws[19],
            draws_offset: ws[20],
            overlay_vertices_count: ws[21],
            overlay_vertices_offset: ws[22],
            overlay_indices_count: ws[23],
            overlay_indices_offset: ws[24],
            _reserved: reserved_words(ws.subrange(25, 33)),
        }
    }

    fn word_count() -> (n: usize) {
        33
    }

    fn from_words(ws: &Vec<u32>) -> (r: Self) {
        let reserved = [ws[25], ws[26], ws[27], ws[28], ws[29], ws[30], ws[31], ws[32]];
        assert(reserved@ =~= ws@.subrange(25, 33));
        proof {
            let chosen = reserved_words(ws@.subrange(25, 33));
            assert(chosen@ == ws@.subrange(25, 33));
            assert(chosen =~= reserved);
        }
        SlideSpecHeader {
            version: ws[0],
            name_ptr: ws[1],
            name_len: ws[2],
            limits: LimitsMem {
                max_vertices: ws[3],
                max_indices: ws[4],
                max_static_meshes: ws[5],
                max_dynamic_meshes: ws[6],
                max_textures: ws[7],
                max_texture_bytes: ws[8],
                max_texture_dim: ws[9],
                _padding: ws[10],
            },
            scene_space: ws[11],
            camera_path_offset: ws[12],
            textures_count: ws[13],
            textures_offset: ws[14],
            static_meshes_count: ws[15],
            static_meshes_offset: ws[16],
            dynamic_meshes_count: ws[17],
            dynamic_meshes_offset: ws[18],
            draws_count: ws[19],
            draws_offset: ws[20],
            overlay_vertices_count: ws[21],
            overlay_vertices_offset: ws[22],
            overlay_indices_count: ws[23],
            overlay_indices_offset: ws[24],
            _reserved: reserved,
        }
    }
}


/// Texture descriptor in shared memory.
#[derive(Debug, Clone, Copy, Default, PartialEq, Eq, Structural)]
pub struct TextureDescMem {
    /// Pointer to label string.
    pub label_ptr: u32,
    /// Length of label string.
    pub label_len: u32,
    /// Width in pixels.
    pub width: u32,
    /// Height in pixels.
    pub height: u32,
    /// Format (0 = Rgba8Unorm).
    pub format: u32,
    /// Wrap mode U (0 = Repeat, 1 = ClampToEdge).
    pub wrap_u: u32,
    /// Wrap mode V.
    pub wrap_v: u32,
    /// Wrap mode W.
    pub wrap_w: u32,
    /// Mag filter (0 = Nearest, 1 = Linear).
    pub mag_filter: u32,
    /// Min filter.
    pub min_filter: u32,
    /// Mip filter.
    pub mip_filter: u32,
    /// Pointer to RGBA8 pixel data.
    pub data_ptr: u32,
    /// Length of pixel data in bytes.
    pub data_len: u32,
}

impl WireRecord for TextureDescMem {
    open spec fn spec_word_count() -> nat {
        13
    }

    open spec fn spec_from_words(ws: Seq<u32>) -> Self {
        TextureDescMem {
            label_ptr: ws[0],
            label_len: ws[1],
            width: ws[2],
            height: ws[3],
            format: ws[4],
            wrap_u: ws[5],
            wrap_v: ws[6],
            wrap_w: ws[7],
            mag_filter: ws[8],
            min_filter: ws[9],
            mip_filter: ws[10],
            data_ptr: ws[11],
            data_len: ws[12],
        }
    }

    fn word_count() -> (n: usize) {
        13
    }

    fn from_words(ws: &Vec<u32>) -> (r: Self) {
        TextureDescMem {
            label_ptr: ws[0],
            label_len: ws[1],
            width: ws[2],
            height: ws[3],
            format: ws[4],
            wrap_u: ws[5],
            wrap_v: ws[6],
            wrap_w: ws[7],
            mag_filter: ws[8],
            min_filter: ws[9],
            mip_filter: ws[10],
            data_ptr: ws[11],
            data_len: ws[12],
        }
    }
}

/// Static mesh in shared memory.
#[derive(Debug, Clone, Copy, Default, PartialEq, Eq, Structural)]
pub struct StaticMeshMem {
    /// Pointer to label string.
    pub label_ptr: u32,
    /// Length of label string.
    pub label_len: u32,
    /// Pointer to vertex array.
    pub vertices_ptr: u32,
    /// Number of vertices (not bytes).
    pub vertices_count: u32,
    /// Pointer to index array.
    pub indices_ptr: u32,
    /// Number of indices.
    pub indices_count: u32,
}

impl WireRecord for StaticMeshMem {
    open spec fn spec_word_count() -> nat {
        6
    }

    open spec fn spec_from_words(ws: Seq<u32>) -> Self {
        StaticMeshMem {
            label_ptr: ws[0],
            label_len: ws[1],
            vertices_ptr: ws[2],
            vertices_count: ws[3],
            indices_ptr: ws[4],
            indices_count: ws[5],
        }
    }

    fn word_count() -> (n: usize) {
        6
    }

    fn from_words(ws: &Vec<u32>) -> (r: Self) {
        StaticMeshMem {
            label_ptr: ws[0],
            label_len: ws[1],
            vertices_ptr: ws[2],
            vertices_count: ws[3],
            indices_ptr: ws[4],
            indices_count: ws[5],
        }
    }
}

/// Dynamic mesh slot in shared memory.
#[derive(Debug, Clone, Copy, Default, PartialEq, Eq, Structural)]
pub struct DynamicMeshMem {
    /// Pointer to label string.
    pub label_ptr: u32,
    /// Length of label string.
    pub label_len: u32,
    /// Maximum vertex capacity.
    pub max_vertices: u32,
    /// Pointer to static index array.
    pub indices_ptr: u32,
    /// Number of indices.
    pub indices_count: u32,
}

impl WireRecord for DynamicMeshMem {
    open spec fn spec_word_count() -> nat {
        5
    }

    open spec fn spec_from_words(ws: Seq<u32>) -> Self {
        DynamicMeshMem {
            label_ptr: ws[0],
            label_len: ws[1],
            max_vertices: ws[2],
            indices_ptr: ws[3],
            indices_count: ws[4],
        }
    }

    fn word_count() -> (n: usize) {
        5
    }

    fn from_words(ws: &Vec<u32>) -> (r: Self) {
        DynamicMeshMem {
            label_ptr: ws[0],
            label_len: ws[1],
            max_vertices: ws[2],
            indices_ptr: ws[3],
            indices_count: ws[4],
        }
    }
}

/// Draw specification in shared memory.
#[derive(Debug, Clone, Copy, Default, PartialEq, Eq, Structural)]
pub struct DrawSpecMem {
    /// Pointer to label string.
    pub label_ptr: u32,
    /// Length of label string.
    pub label_len: u32,
    /// Source type (0 = Static, 1 = Dynamic).
    pub source_type: u32,
    /// Source index (which mesh to draw).
    pub source_index: u32,
    /// Pipeline (0 = Opaque, 1 = Transparent).
    pub pipeline: u32,
    /// First index to draw.
    pub index_start: u32,
    /// Number of indices to draw.
    pub index_count: u32,
}

impl WireRecord for DrawSpecMem {
    open spec fn spec_word_count() -> nat {
        7
    }

    open spec fn spec_from_words(ws: Seq<u32>) -> Self {
        DrawSpecMem {
            label_ptr: ws[0],
            label_len: ws[1],
            source_type: ws[2],
            source_index: ws[3],
            pipeline: ws[4],
            index_start: ws[5],
            index_count: ws[6],
        }
    }

    fn word_count() -> (n: usize) {
        7
    }

    fn from_words(ws: &Vec<u32>) -> (r: Self) {
        DrawSpecMem {
            label_ptr: ws[0],
            label_len: ws[1],
            source_type: ws[2],
            source_index: ws[3],
            pipeline: ws[4],
            index_start: ws[5],
            index_count: ws[6],
        }
    }
}

/// Camera path in shared memory.
#[derive(Debug, Clone, Copy, Default, PartialEq, Eq, Structural)]
pub struct CameraPathMem {
    /// Whether the path loops.
    pub looped: u32,
    /// Number of keyframes.
    pub keyframes_count: u32,
    /// Offset to keyframe array.
    pub keyframes_offset: u32,
}

impl WireRecord for CameraPathMem {
    open spec fn spec_word_count() -> nat {
        3
    }

    open spec fn spec_from_words(ws: Seq<u32>) -> Self {
        CameraPathMem {
            looped: ws[0],
            keyframes_count: ws[1],
            keyframes_offset: ws[2],
        }
    }

    fn word_count() -> (n: usize) {
        3
    }

    fn from_words(ws: &Vec<u32>) -> (r: Self) {
        CameraPathMem {
            looped: ws[0],
            keyframes_count: ws[1],
            keyframes_offset: ws[2],
        }
    }
}

/// Runtime overlay header (for per-frame updates).
#[derive(Debug, Clone, Copy, Default, PartialEq, Eq, Structural)]
pub struct RuntimeOverlayHeader {
    /// Pointer to vertex array.
    pub vertices_ptr: u32,
    /// Number of vertices.
    pub vertices_count: u32,
    /// Pointer to index array.
    pub indices_ptr: u32,
    /// Number of indices.
    pub indices_count: u32,
}

impl WireRecord for RuntimeOverlayHeader {
    open spec fn spec_word_count() -> nat {
        4
    }

    open spec fn spec_from_words(ws: Seq<u32>) -> Self {
        RuntimeOverlayHeader {
            vertices_ptr: ws[0],
            vertices_count: ws[1],
            indices_ptr: ws[2],
            indices_count: ws[3],
        }
    }

    fn word_count() -> (n: usize) {
        4
    }

    fn from_words(ws: &Vec<u32>) -> (r: Self) {
        RuntimeOverlayHeader {
            vertices_ptr: ws[0],
            vertices_count: ws[1],
            indices_ptr: ws[2],
            indices_count: ws[3],
        }
    }
}

/// Runtime mesh update header.
#[derive(Debug, Clone, Copy, Default, PartialEq, Eq, Structural)]
pub struct RuntimeMeshHeader {
    /// Index into dynamic mesh array.
    pub mesh_index: u32,
    /// Pointer to vertex array.
    pub vertices_ptr: u32,
    /// Number of vertices.
    pub vertices_count: u32,
    /// Number of indices to use (from static index buffer).
    pub index_count: u32,
}

impl WireRecord for RuntimeMeshHeader {
    open spec fn spec_word_count() -> nat {
        4
    }

    open spec fn spec_from_words(ws: Seq<u32>) -> Self {
        RuntimeMeshHeader {
            mesh_index: ws[0],
            vertices_ptr: ws[1],
            vertices_count: ws[2],
            index_count: ws[3],
        }
    }

    fn word_count() -> (n: usize) {
        4
    }

    fn from_words(ws: &Vec<u32>) -> (r: Self) {
        RuntimeMeshHeader {
            mesh_index: ws[0],
            vertices_ptr: ws[1],
            vertices_count: ws[2],
            index_count: ws[3],
        }
    }
}

/// Runtime mesh set header.
#[derive(Debug, Clone, Copy, Default, PartialEq, Eq, Structural)]
pub struct RuntimeMeshSetHeader {
    /// Number of mesh updates.
    pub meshes_count: u32,
    /// Offset to mesh header array.
    pub meshes_offset: u32,
}

impl WireRecord for RuntimeMeshSetHeader {
    open spec fn spec_word_count() -> nat {
        2
    }

    open spec fn spec_from_words(ws: Seq<u32>) -> Self {
        RuntimeMeshSetHeader {
            meshes_count: ws[0],
            meshes_offset: ws[1],
        }
    }

    fn word_count() -> (n: usize) {
        2
    }

    fn from_words(ws: &Vec<u32>) -> (r: Self) {
        RuntimeMeshSetHeader {
            meshes_count: ws[0],
            meshes_offset: ws[1],
        }
    }
}

// ── Reading records ──────────────────────────────────────────────────────────

/// The record of type `T` stored at byte `at` of `mem`.
pub open spec fn record_at<T: WireRecord>(mem: Seq<u8>, at: int) -> T {
    T::spec_from_words(words_at(mem, at, T::spec_word_count()))
}

/// The `count` records of type `T` stored one after another from byte `at`.
pub open spec fn records_at<T: WireRecord>(mem: Seq<u8>, at: int, count: nat) -> Seq<T> {
    Seq::new(count, |i: int| record_at::<T>(mem, at + 4 * T::spec_word_count() * i))
}

/// Reads one record at byte `at`.
pub fn read_record<T: WireRecord>(mem: &[u8], at: usize) -> (r: T)
    requires
        at + 4 * T::spec_word_count() <= mem@.len(),
    ensures
        r == record_at::<T>(mem@, at as int),
{
    let n = T::word_count();
    let ws = read_words(mem, at, n);
    T::from_words(&ws)
}

/// Reads `count` consecutive records starting at byte `at`.
pub fn read_records<T: WireRecord>(mem: &[u8], at: usize, count: usize) -> (v: Vec<T>)
    requires
        at + 4 * T::spec_word_count() * count <= mem@.len(),
    ensures
        v@ == records_at::<T>(mem@, at as int, count as nat),
{
    let n = T::word_count();
    let size = 4 * n;
    let mut v: Vec<T> = Vec::new();
    let mut i: usize = 0;
    let mut pos: usize = at;
    let len = mem.len();
    while i < count
        invariant
            len == mem@.len(),
            n as nat == T::spec_word_count(),
            size == 4 * n,
            0 < n <= 64,
            at + 4 * T::spec_word_count() * count <= mem@.len(),
            i <= count,
            pos == at + size * i,
            v@.len() == i,
            forall|j: int|
                0 <= j < i ==> #[trigger] v@[j] == record_at::<T>(
                    mem@,
                    at + 4 * T::spec_word_count() * j,
                ),
        decreases count - i,
    {
        assert(size * i + size <= size * count) by (nonlinear_arith)
            requires
                i < count,
        ;
        assert(4 * T::spec_word_count() * count == size * count);
        v.push(read_record::<T>(mem, pos));
        assert(4 * T::spec_word_count() * i == size * i);
        pos = pos + size;
        i += 1;
        assert(pos == at + size * i) by (nonlinear_arith)
            requires
                pos == at + size * (i - 1) + size,
        ;
    }
    assert(v@ =~= records_at::<T>(mem@, at as int, count as nat));
    v
}

// ── Building a layout ────────────────────────────────────────────────────────

/// The state of a [`SharedMemoryBuilder`]: the bytes so far and its cursors.
pub struct BuilderState {
    /// The buffer: header space followed by the data written so far.
    pub bytes: Seq<u8>,
    /// Write position reported for strings: always the end of the buffer.
    pub string_offset: u32,
    /// Write position reported for arrays: always the end of the buffer.
    pub array_offset: u32,
    /// Bytes reserved for the header at the start.
    pub header_size: u32,
    /// Every write so far, in order: the offset it returned and the bytes it wrote.
    pub writes: Seq<(int, Seq<u8>)>,
}

/// Builder for shared memory layouts.
///
/// Reserves space for the header at the start of the buffer and appends
/// strings and arrays after it, returning the offsets to put in the header:
/// each write lands at the offset it returns. There is one write position, the
/// end of the buffer, which both `current_string_offset` and
/// `current_array_offset` report. Each write is recorded in a ghost log (the
/// view's `writes`), and `build` puts every logged write, however many writes
/// followed it, at the offset it returned.
pub struct SharedMemoryBuilder {
    buffer: Vec<u8>,
    string_offset: u32,
    array_offset: u32,
    header_size: u32,
    writes: Ghost<Seq<(int, Seq<u8>)>>,
}

impl View for SharedMemoryBuilder {
    type V = BuilderState;

    closed spec fn view(&self) -> BuilderState {
        BuilderState {
            bytes: self.buffer@,
            string_offset: self.string_offset,
            array_offset: self.array_offset,
            header_size: self.header_size,
            writes: self.writes@,
        }
    }
}

/// `count` zero bytes.
pub open spec fn zeros(count: nat) -> Seq<u8> {
    Seq::new(count, |i: int| 0u8)
}

/// The offset `write_bytes` aligns `offset` to: `(offset + align - 1) & !(align - 1)`.
pub open spec fn aligned_offset(offset: usize, align: usize) -> usize {
    ((offset + align - 1) as usize) & !((align - 1) as usize)
}

/// Whether the bits of `ptr` under `align - 1` are clear (for a power of two
/// `align`: whether `ptr` is a multiple of `align`).
pub open spec fn low_bits_clear(ptr: u32, align: usize) -> bool {
    (ptr as usize) & ((align - 1) as usize) == 0
}

/// Rounding up to an alignment moves an offset forward by less than the alignment.
pub proof fn aligned_offset_bounds(offset: usize, align: usize)
    requires
        align >= 1,
        offset + align - 1 <= usize::MAX,
    ensures
        offset <= aligned_offset(offset, align) <= offset + align - 1,
{
    let x: usize = (offset + align - 1) as usize;
    let m: usize = (align - 1) as usize;
    assert((x & !m) <= x && x - (x & !m) <= m) by (bit_vector);
}

/// Whether `a` is a power of two.
pub open spec fn is_power_of_two(a: usize) -> bool {
    a > 0 && a & ((a - 1) as usize) == 0
}

/// For a power of two `a`, clear bits under `a - 1` make a multiple of `a`.
proof fn lemma_low_bits_multiple(x: u32, a: u32)
    by (bit_vector)
    requires
        a > 0,
        a & ((a - 1) as u32) == 0,
        x & ((a - 1) as u32) == 0,
    ensures
        x % a == 0,
{
}

/// Appends `bytes` to `buf`.
fn append_bytes(buf: &mut Vec<u8>, bytes: &[u8])
    ensures
        final(buf)@ == old(buf)@ + bytes@,
{
    let mut i: usize = 0;
    while i < bytes.len()
        invariant
            i <= bytes@.len(),
            buf@ == old(buf)@ + bytes@.take(i as int),
        decreases bytes@.len() - i,
    {
        buf.push(bytes[i]);
        assert(bytes@.take(i + 1) == bytes@.take(i as int).push(bytes@[i as int]));
        i += 1;
    }
    assert(bytes@.take(bytes@.len() as int) == bytes@);
}

/// Both reported write positions stand at the end of the buffer.
pub open spec fn cursors_at_end(s: BuilderState) -> bool {
    s.string_offset == s.bytes.len() && s.array_offset == s.bytes.len()
}

/// Every recorded write's bytes stand, past the header space, at the offset it returned.
pub open spec fn writes_in_place(bytes: Seq<u8>, writes: Seq<(int, Seq<u8>)>) -> bool {
    forall|i: int|
        0 <= i < writes.len() ==> {
            let w = #[trigger] writes[i];
            &&& HEADER_SIZE <= w.0
            &&& w.0 + w.1.len() <= bytes.len()
            &&& bytes.subrange(w.0, w.0 + w.1.len()) == w.1
        }
}

/// Writes already in place stay in place when the buffer grows.
proof fn writes_survive_growth(before: Seq<u8>, after: Seq<u8>, writes: Seq<(int, Seq<u8>)>)
    requires
        writes_in_place(before, writes),
        before.is_prefix_of(after),
    ensures
        writes_in_place(after, writes),
{
    assert forall|i: int| 0 <= i < writes.len() implies {
        let w = #[trigger] writes[i];
        &&& HEADER_SIZE <= w.0
        &&& w.0 + w.1.len() <= after.len()
        &&& after.subrange(w.0, w.0 + w.1.len()) == w.1
    } by {
        later_writes_keep_bytes(before, after, writes[i].0, writes[i].1);
    }
}

/// A write stays in the log as later writes are recorded: each write pushes one entry,
/// so a log that extends an earlier one holds the earlier entries at their places.
pub proof fn logged_write_stays(earlier: Seq<(int, Seq<u8>)>, later: Seq<(int, Seq<u8>)>, k: int)
    requires
        earlier.is_prefix_of(later),
        0 <= k < earlier.len(),
    ensures
        later[k] == earlier[k],
{
    assert(earlier[k] == later.subrange(0, earlier.len() as int)[k]);
}

/// The fresh-builder state: header space zeroed, both cursors just after it, no writes.
pub open spec fn fresh_builder(s: BuilderState) -> bool {
    &&& s.writes == Seq::<(int, Seq<u8>)>::empty()
    &&& s.bytes == zeros(HEADER_SIZE as nat)
    &&& s.string_offset == HEADER_SIZE
    &&& s.array_offset == HEADER_SIZE
    &&& s.header_size == HEADER_SIZE
}

impl SharedMemoryBuilder {
    /// The builder keeps its header space: `header_size` bytes at the start.
    pub closed spec fn wf(&self) -> bool {
        &&& self.header_size == HEADER_SIZE
        &&& self.buffer@.len() >= HEADER_SIZE
        &&& self.string_offset == self.buffer@.len()
        &&& self.array_offset == self.buffer@.len()
        &&& writes_in_place(self.buffer@, self.writes@)
    }

    /// Creates a new builder with default capacity.
    pub fn new() -> (b: Self)
        ensures
            b.wf(),
            fresh_builder(b@),
            cursors_at_end(b@),
    {
        Self::with_capacity(8192)
    }

    /// Creates a new builder; `capacity` is how many bytes to allocate up front.
    pub fn with_capacity(capacity: usize) -> (b: Self)
        ensures
            b.wf(),
            fresh_builder(b@),
            cursors_at_end(b@),
    {
        let mut buffer: Vec<u8> = Vec::with_capacity(capacity);
        let mut i: u32 = 0;
        while i < HEADER_SIZE
            invariant
                i <= HEADER_SIZE,
                buffer@ == zeros(i as nat),
            decreases HEADER_SIZE - i,
        {
            buffer.push(0u8);
            assert(buffer@ =~= zeros((i + 1) as nat));
            i += 1;
        }
        SharedMemoryBuilder {
            buffer,
            string_offset: HEADER_SIZE,
            array_offset: HEADER_SIZE,
            header_size: HEADER_SIZE,
            writes: Ghost(Seq::empty()),
        }
    }

    /// Returns the current buffer length.
    pub fn len(&self) -> (n: usize)
        ensures
            n == self@.bytes.len(),
    {
        self.buffer.len()
    }

    /// Returns true if the buffer is empty.
    pub fn is_empty(&self) -> (r: bool)
        ensures
            r == (self@.bytes.len() == 0),
    {
        self.buffer.len() == 0
    }

    /// Appends the UTF-8 bytes of `s` and returns `(ptr, len)`: the offset where
    /// the bytes now stand (the end of the buffer before the write) and their length.
    pub fn write_string(&mut self, s: &str) -> (r: (u32, u32))
        requires
            old(self).wf(),
            s.spec_bytes().len() <= MAX_STRING_LEN,
            old(self)@.string_offset + s.spec_bytes().len() <= u32::MAX,
        ensures
            final(self).wf(),
            r.0 == old(self)@.bytes.len(),
            r.0 == old(self)@.string_offset,
            old(self)@.bytes.is_prefix_of(final(self)@.bytes),
            r.1 == s.spec_bytes().len(),
            final(self)@.bytes == old(self)@.bytes + s.spec_bytes(),
            final(self)@.bytes.subrange(r.0 as int, r.0 + r.1) == s.spec_bytes(),
            cursors_at_end(final(self)@),
            final(self)@.string_offset == old(self)@.string_offset + r.1,
            final(self)@.header_size == old(self)@.header_size,
            final(self)@.writes == old(self)@.writes.push((r.0 as int, s.spec_bytes())),
    {
        let bytes = s.as_bytes();
        let len = bytes.len() as u32;
        let ptr = self.string_offset;
        append_bytes(&mut self.buffer, bytes);
        self.string_offset = ptr + len;
        self.array_offset = ptr + len;
        assert(self.buffer@.subrange(ptr as int, ptr + len) =~= s.spec_bytes());
        proof {
            writes_survive_growth(old(self).buffer@, self.buffer@, self.writes@);
        }
        self.writes = Ghost(self.writes@.push((ptr as int, s.spec_bytes())));
        (ptr, len)
    }

    /// Appends the bytes of an array of `count` elements and returns
    /// `(ptr, count)`: the offset where the bytes now stand (the end of the buffer
    /// before the write) and the element count.
    pub fn write_array_bytes(&mut self, bytes: &[u8], count: u32) -> (r: (u32, u32))
        requires
            old(self).wf(),
            count <= MAX_ARRAY_LEN,
            old(self)@.array_offset + bytes@.len() <= u32::MAX,
        ensures
            final(self).wf(),
            r == (old(self)@.array_offset, count),
            old(self)@.bytes.is_prefix_of(final(self)@.bytes),
            r.0 == old(self)@.bytes.len(),
            final(self)@.bytes == old(self)@.bytes + bytes@,
            final(self)@.bytes.subrange(r.0 as int, r.0 + bytes@.len()) == bytes@,
            cursors_at_end(final(self)@),
            final(self)@.array_offset == old(self)@.array_offset + bytes@.len(),
            final(self)@.header_size == old(self)@.header_size,
            final(self)@.writes == old(self)@.writes.push((r.0 as int, bytes@)),
    {
        let ptr = self.array_offset;
        append_bytes(&mut self.buffer, bytes);
        let end = ptr + bytes.len() as u32;
        self.array_offset = end;
        self.string_offset = end;
        assert(self.buffer@.subrange(ptr as int, ptr + bytes@.len()) =~= bytes@);
        proof {
            writes_survive_growth(old(self).buffer@, self.buffer@, self.writes@);
        }
        self.writes = Ghost(self.writes@.push((ptr as int, bytes@)));
        (ptr, count)
    }

    /// Writes raw bytes at an aligned offset and returns `(ptr, len)`.
    ///
    /// The end of the buffer is rounded up with `(offset + align - 1) & !(align - 1)`;
    /// zero bytes of padding fill the gap, then `bytes` follow, so they stand at
    /// `ptr`, and the write position moves to `ptr + len`.
    #[verifier::loop_isolation(false)]
    pub fn write_bytes(&mut self, bytes: &[u8], align: usize) -> (r: (u32, u32))
        requires
            old(self).wf(),
            align >= 1,
            old(self)@.array_offset + align - 1 <= u32::MAX,
            aligned_offset(old(self)@.array_offset as usize, align) + bytes@.len() <= u32::MAX,
        ensures
            final(self).wf(),
            r.0 == aligned_offset(old(self)@.array_offset as usize, align),
            r.0 >= old(self)@.array_offset,
            old(self)@.bytes.is_prefix_of(final(self)@.bytes),
            r.1 == bytes@.len(),
            r.0 - old(self)@.bytes.len() < align,
            final(self)@.bytes == old(self)@.bytes + zeros((r.0 - old(self)@.array_offset) as nat)
                + bytes@,
            final(self)@.bytes.subrange(r.0 as int, r.0 + r.1) == bytes@,
            cursors_at_end(final(self)@),
            final(self)@.array_offset == r.0 + r.1,
            final(self)@.header_size == old(self)@.header_size,
            final(self)@.writes == old(self)@.writes.push((r.0 as int, bytes@)),
            low_bits_clear(r.0, align),
            is_power_of_two(align) ==> (r.0 as int) % (align as int) == 0,
            r.0 <= old(self)@.array_offset + align - 1,
    {
        let offset = self.array_offset as usize;
        let m = align - 1;
        let x = offset + m;
        let aligned = x & !m;
        proof {
            assert((x & !m) <= x && x - (x & !m) <= m) by (bit_vector);
            assert((x & !m) & m == 0) by (bit_vector);
        }
        let padding = aligned - offset;
        let ghost before = self.buffer@;
        let mut k: usize = 0;
        while k < padding
            invariant
                k <= padding,
                self.buffer@ == before + zeros(k as nat),
                before.len() == offset,
                self.array_offset == old(self).array_offset,
                self.string_offset == old(self).string_offset,
                self.header_size == HEADER_SIZE,
                self.writes@ == old(self).writes@,
                before.len() >= HEADER_SIZE,
            decreases padding - k,
        {
            self.buffer.push(0u8);
            assert(self.buffer@ =~= before + zeros((k + 1) as nat));
            k += 1;
        }
        assert(aligned == aligned_offset(old(self)@.array_offset as usize, align));
        assert(aligned <= x);
        assert(x <= u32::MAX);
        let a32 = aligned as u32;
        assert(a32 == aligned);
        let ptr = if a32 > self.array_offset {
            a32
        } else {
            self.array_offset
        };
        let ghost padded = self.buffer@;
        append_bytes(&mut self.buffer, bytes);
        let len = bytes.len() as u32;
        self.array_offset = ptr + len;
        self.string_offset = ptr + len;
        assert(padded.len() == ptr);
        assert(self.buffer@.subrange(ptr as int, ptr + len) =~= bytes@);
        proof {
            assert(old(self).buffer@.is_prefix_of(self.buffer@));
            writes_survive_growth(old(self).buffer@, self.buffer@, self.writes@);
        }
        self.writes = Ghost(self.writes@.push((ptr as int, bytes@)));
        proof {
            if is_power_of_two(align) {
                let a32 = align as u32;
                let m: usize = (align - 1) as usize;
                assert(align == a32);
                assert((ptr as usize) & m == ((ptr & ((a32 - 1) as u32)) as usize)) by (bit_vector)
                    requires
                        align == a32,
                        align > 0,
                        m == (align - 1) as usize,
                ;
                assert(a32 & ((a32 - 1) as u32) == 0) by (bit_vector)
                    requires
                        align == a32,
                        align > 0,
                        align & ((align - 1) as usize) == 0,
                ;
                lemma_low_bits_multiple(ptr, a32);
            }
        }
        (ptr, len)
    }

    /// Overwrites the header space with `header` and returns the finished layout. Every
    /// write made on this builder reads back from the layout at the offset it returned.
    pub fn build(self, header: SlideSpecHeader) -> (layout: SharedMemoryLayout)
        requires
            self.wf(),
        ensures
            layout.wf(),
            layout@.header_size == HEADER_SIZE,
            layout@.bytes == le_bytes(header_words(header)) + self@.bytes.skip(HEADER_SIZE as int),
            forall|i: int|
                0 <= i < self@.writes.len() ==> {
                    let w = #[trigger] self@.writes[i];
                    layout@.bytes.subrange(w.0, w.0 + w.1.len()) == w.1
                },
    {
        let mut words: Vec<u32> = Vec::new();
        words.push(header.version);
        words.push(header.name_ptr);
        words.push(header.name_len);
        words.push(header.limits.max_vertices);
        words.push(header.limits.max_indices);
        words.push(header.limits.max_static_meshes);
        words.push(header.limits.max_dynamic_meshes);
        words.push(header.limits.max_textures);
        words.push(header.limits.max_texture_bytes);
        words.push(header.limits.max_texture_dim);
        words.push(header.limits._padding);
        words.push(header.scene_space);
        words.push(header.camera_path_offset);
        words.push(header.textures_count);
        words.push(header.textures_offset);
        words.push(header.static_meshes_count);
        words.push(header.static_meshes_offset);
        words.push(header.dynamic_meshes_count);
        words.push(header.dynamic_meshes_offset);
        words.push(header.draws_count);
        words.push(header.draws_offset);
        words.push(header.overlay_vertices_count);
        words.push(header.overlay_vertices_offset);
        words.push(header.overlay_indices_count);
        words.push(header.overlay_indices_offset);
        let mut r: usize = 0;
        while r < 8
            invariant
                r <= 8,
                words@.len() == 25 + r,
                forall|j: int| 0 <= j < 25 + r ==> #[trigger] words@[j] == header_words(header)[j],
            decreases 8 - r,
        {
            words.push(header._reserved[r]);
            r += 1;
        }
        assert(words@ =~= header_words(header));
        let head = encode_words(&words);
        proof {
            lemma_le_bytes_len(words@);
        }
        let mut buffer = head;
        let mut i: usize = HEADER_SIZE as usize;
        let n = self.buffer.len();
        while i < n
            invariant
                HEADER_SIZE <= i <= n,
                n == self.buffer@.len(),
                buffer@ == le_bytes(header_words(header)) + self.buffer@.subrange(
                    HEADER_SIZE as int,
                    i as int,
                ),
            decreases n - i,
        {
            buffer.push(self.buffer[i]);
            assert(self.buffer@.subrange(HEADER_SIZE as int, i + 1) == self.buffer@.subrange(
                HEADER_SIZE as int,
                i as int,
            ).push(self.buffer@[i as int]));
            i += 1;
        }
        assert(self.buffer@.subrange(HEADER_SIZE as int, n as int) == self.buffer@.skip(
            HEADER_SIZE as int,
        ));
        proof {
            assert forall|i: int| 0 <= i < self@.writes.len() implies {
                let w = #[trigger] self@.writes[i];
                buffer@.subrange(w.0, w.0 + w.1.len()) == w.1
            } by {
                written_bytes_read_back(self.buffer@, self@.writes[i].0, self@.writes[i].1, header);
            }
        }
        SharedMemoryLayout { buffer, header_size: self.header_size }
    }

    /// Returns the current string offset (for manual header construction).
    pub fn current_string_offset(&self) -> (o: u32)
        ensures
            o == self@.string_offset,
    {
        self.string_offset
    }

    /// Returns the current array offset (for manual header construction).
    pub fn current_array_offset(&self) -> (o: u32)
        ensures
            o == self@.array_offset,
    {
        self.array_offset
    }
}

impl Default for SharedMemoryBuilder {
    fn default() -> (b: Self)
        ensures
            b.wf(),
            fresh_builder(b@),
            cursors_at_end(b@),
    {
        SharedMemoryBuilder::new()
    }
}

/// The state of a finished layout: its bytes and header size.
pub struct LayoutState {
    /// The whole buffer, header first.
    pub bytes: Seq<u8>,
    /// Size of the header at the start.
    pub header_size: u32,
}

/// Final shared memory layout ready for export.
pub struct SharedMemoryLayout {
    buffer: Vec<u8>,
    header_size: u32,
}

impl View for SharedMemoryLayout {
    type V = LayoutState;

    closed spec fn view(&self) -> LayoutState {
        LayoutState { bytes: self.buffer@, header_size: self.header_size }
    }
}

impl SharedMemoryLayout {
    /// The layout starts with a whole header.
    pub closed spec fn wf(&self) -> bool {
        self.header_size == HEADER_SIZE && self.buffer@.len() >= HEADER_SIZE
    }

    /// Decodes the header at the start of the buffer.
    pub fn header(&self) -> (h: SlideSpecHeader)
        requires
            self.wf(),
        ensures
            h == record_at::<SlideSpecHeader>(self@.bytes, 0),
    {
        read_record::<SlideSpecHeader>(self.buffer.as_slice(), 0)
    }

    /// Returns the full buffer.
    pub fn into_buffer(self) -> (b: Vec<u8>)
        ensures
            b@ == self@.bytes,
    {
        self.buffer
    }

    /// Returns the buffer as a slice.
    pub fn as_slice(&self) -> (s: &[u8])
        ensures
            s@ == self@.bytes,
    {
        self.buffer.as_slice()
    }

    /// Returns the header size.
    pub fn header_size(&self) -> (n: u32)
        ensures
            n == self@.header_size,
    {
        self.header_size
    }

    /// Returns the total memory size.
    pub fn total_size(&self) -> (n: usize)
        ensures
            n == self@.bytes.len(),
    {
        self.buffer.len()
    }
}

/// A header written by `build` reads back unchanged from the start of the layout.
pub proof fn lemma_header_roundtrip(h: SlideSpecHeader, rest: Seq<u8>)
    ensures
        record_at::<SlideSpecHeader>(le_bytes(header_words(h)) + rest, 0) == h,
{
    let ws = header_words(h);
    let mem = le_bytes(ws) + rest;
    lemma_le_bytes_len(ws);
    assert forall|k: int| 0 <= k < 33 implies #[trigger] words_at(mem, 0, 33)[k] == ws[k] by {
        lemma_le_bytes_roundtrip(ws, k);
        assert(mem[4 * k] == le_bytes(ws)[4 * k]);
        assert(mem[4 * k + 1] == le_bytes(ws)[4 * k + 1]);
        assert(mem[4 * k + 2] == le_bytes(ws)[4 * k + 2]);
        assert(mem[4 * k + 3] == le_bytes(ws)[4 * k + 3]);
    }
    assert(words_at(mem, 0, 33) =~= ws);
    let r = record_at::<SlideSpecHeader>(mem, 0);
    assert(ws.subrange(25, 33) =~= h._reserved@);
    assert(r._reserved@ == h._reserved@);
    assert(r._reserved =~= h._reserved);
}

/// Bytes written into a builder read back from the built layout: whatever `data` stands
/// at offset `ptr` of the builder's buffer, past the header space, stands at `ptr` of the
/// layout that `build` makes of it, whatever the header. With the write contracts above
/// (each returned pointer is where its bytes land, and later writes only append), the
/// `(ptr, len)` pair of any write locates its bytes in the finished layout.
pub proof fn written_bytes_read_back(buffer: Seq<u8>, ptr: int, data: Seq<u8>, h: SlideSpecHeader)
    requires
        HEADER_SIZE <= ptr,
        ptr + data.len() <= buffer.len(),
        buffer.subrange(ptr, ptr + data.len()) == data,
    ensures
        (le_bytes(header_words(h)) + buffer.skip(HEADER_SIZE as int)).subrange(
            ptr,
            ptr + data.len(),
        ) == data,
{
    lemma_le_bytes_len(header_words(h));
    let mem = le_bytes(header_words(h)) + buffer.skip(HEADER_SIZE as int);
    assert forall|i: int| 0 <= i < data.len() implies mem.subrange(ptr, ptr + data.len())[i]
        == data[i] by {
        assert(buffer.subrange(ptr, ptr + data.len())[i] == buffer[ptr + i]);
    }
    assert(mem.subrange(ptr, ptr + data.len()) =~= data);
}

/// The words of record `i` in a run of records of `wc` words each.
pub open spec fn record_words(ws: Seq<u32>, wc: nat, i: int) -> Seq<u32> {
    ws.subrange(wc * i, wc * i + wc)
}

/// Records stored as the little-endian bytes of their words read back: where
/// `le_bytes(ws)` stands at `ptr`, record `i` of type `T` read from `ptr` is the one that
/// the `i`-th run of `T`'s word count in `ws` encodes.
pub proof fn records_read_back<T: WireRecord>(mem: Seq<u8>, ptr: int, ws: Seq<u32>, count: nat)
    requires
        0 <= ptr,
        ws.len() == count * T::spec_word_count(),
        ptr + 4 * ws.len() <= mem.len(),
        mem.subrange(ptr, ptr + 4 * ws.len()) == le_bytes(ws),
    ensures
        records_at::<T>(mem, ptr, count) == Seq::new(
            count,
            |i: int| T::spec_from_words(record_words(ws, T::spec_word_count(), i)),
        ),
{
    let wc = T::spec_word_count();
    lemma_le_bytes_len(ws);
    assert forall|i: int| 0 <= i < count implies #[trigger] words_at(mem, ptr + 4 * wc * i, wc)
        == record_words(ws, wc, i) by {
        assert(wc * i + wc <= wc * count) by (nonlinear_arith)
            requires
                0 <= i < count,
        ;
        assert(0 <= wc * i) by (nonlinear_arith)
            requires
                0 <= i,
        ;
        assert forall|k: int| 0 <= k < wc implies #[trigger] words_at(mem, ptr + 4 * wc * i, wc)[k]
            == record_words(ws, wc, i)[k] by {
            let w = wc * i + k;
            assert(4 * wc * i + 4 * k == 4 * w) by (nonlinear_arith)
                requires
                    w == wc * i + k,
            ;
            lemma_le_bytes_roundtrip(ws, w);
            let bytes = mem.subrange(ptr, ptr + 4 * ws.len());
            assert(mem[ptr + 4 * w] == bytes[4 * w]);
            assert(mem[ptr + 4 * w + 1] == bytes[4 * w + 1]);
            assert(mem[ptr + 4 * w + 2] == bytes[4 * w + 2]);
            assert(mem[ptr + 4 * w + 3] == bytes[4 * w + 3]);
        }
        assert(words_at(mem, ptr + 4 * wc * i, wc) =~= record_words(ws, wc, i));
    }
    assert(records_at::<T>(mem, ptr, count) =~= Seq::new(
        count,
        |i: int| T::spec_from_words(record_words(ws, wc, i)),
    ));
}

/// Later writes keep earlier bytes: a buffer that extends `before` holds, at every offset
/// where `before` held `data`, the same `data`.
pub proof fn later_writes_keep_bytes(before: Seq<u8>, after: Seq<u8>, ptr: int, data: Seq<u8>)
    requires
        0 <= ptr,
        ptr + data.len() <= before.len(),
        before.subrange(ptr, ptr + data.len()) == data,
        before.is_prefix_of(after),
    ensures
        after.subrange(ptr, ptr + data.len()) == data,
{
    assert forall|i: int| 0 <= i < data.len() implies after.subrange(ptr, ptr + data.len())[i]
        == data[i] by {
        assert(after.subrange(0, before.len() as int)[ptr + i] == after[ptr + i]);
        assert(before.subrange(ptr, ptr + data.len())[i] == before[ptr + i]);
    }
    assert(after.subrange(ptr, ptr + data.len()) =~= data);
}

/// A run of writes keeps extending the buffer: each write's buffer is a prefix of every
/// later one.
pub proof fn buffers_extend(a: Seq<u8>, b: Seq<u8>, c: Seq<u8>)
    requires
        a.is_prefix_of(b),
        b.is_prefix_of(c),
    ensures
        a.is_prefix_of(c),
{
    assert forall|i: int| 0 <= i < a.len() implies a[i] == c.subrange(0, a.len() as int)[i] by {
        assert(a[i] == b.subrange(0, a.len() as int)[i]);
        assert(b[i] == c.subrange(0, b.len() as int)[i]);
    }
    assert(a =~= c.subrange(0, a.len() as int));
}

/// A write's bytes read back from the finished layout, whatever was written after it: if
/// `data` stood at `ptr`, past the header space, in the buffer just after the write, and
/// the buffer at build time extends that one, then the layout built with any header holds
/// `data` at `ptr`. With the write contracts (each returns the offset where its bytes land,
/// and each extends the buffer), this is the `(ptr, len)` round trip of every write.
pub proof fn written_bytes_survive(
    at_write: Seq<u8>,
    at_build: Seq<u8>,
    ptr: int,
    data: Seq<u8>,
    h: SlideSpecHeader,
)
    requires
        HEADER_SIZE <= ptr,
        ptr + data.len() <= at_write.len(),
        at_write.subrange(ptr, ptr + data.len()) == data,
        at_write.is_prefix_of(at_build),
    ensures
        (le_bytes(header_words(h)) + at_build.skip(HEADER_SIZE as int)).subrange(
            ptr,
            ptr + data.len(),
        ) == data,
{
    later_writes_keep_bytes(at_write, at_build, ptr, data);
    written_bytes_read_back(at_build, ptr, data, h);
}


// ── Record layout laws ───────────────────────────────────────────────────────

/// Reading back the little-endian bytes of a run of words gives the words.
pub proof fn words_read_back(ws: Seq<u32>)
    ensures
        words_at(le_bytes(ws), 0, ws.len()) == ws,
{
    assert forall|k: int| 0 <= k < ws.len() implies #[trigger] words_at(le_bytes(ws), 0, ws.len())[k]
        == ws[k] by {
        lemma_le_bytes_roundtrip(ws, k);
    }
    assert(words_at(le_bytes(ws), 0, ws.len()) =~= ws);
}

/// A [`SlideSpecHeader`] is read from its wire bytes field by field in declaration order, one
/// little-endian word each: the record stored as the bytes of words `ws` has field `i`
/// equal to `ws[i]`.
pub proof fn slide_spec_header_layout(ws: Seq<u32>)
    requires
        ws.len() == 33,
    ensures
        ({
            let r = record_at::<SlideSpecHeader>(le_bytes(ws), 0);
            &&& r.version == ws[0]
            &&& r.name_ptr == ws[1]
            &&& r.name_len == ws[2]
            &&& r.limits.max_vertices == ws[3]
            &&& r.limits.max_indices == ws[4]
            &&& r.limits.max_static_meshes == ws[5]
            &&& r.limits.max_dynamic_meshes == ws[6]
            &&& r.limits.max_textures == ws[7]
            &&& r.limits.max_texture_bytes == ws[8]
            &&& r.limits.max_texture_dim == ws[9]
            &&& r.limits._padding == ws[10]
            &&& r.scene_space == ws[11]
            &&& r.camera_path_offset == ws[12]
            &&& r.textures_count == ws[13]
            &&& r.textures_offset == ws[14]
            &&& r.static_meshes_count == ws[15]
            &&& r.static_meshes_offset == ws[16]
            &&& r.dynamic_meshes_count == ws[17]
            &&& r.dynamic_meshes_offset == ws[18]
            &&& r.draws_count == ws[19]
            &&& r.draws_offset == ws[20]
            &&& r.overlay_vertices_count == ws[21]
            &&& r.overlay_vertices_offset == ws[22]
            &&& r.overlay_indices_count == ws[23]
            &&& r.overlay_indices_offset == ws[24]
            &&& forall|j: int| 0 <= j < 8 ==> r._reserved@[j] == ws[25 + j]
        }),
{
    words_read_back(ws);
    let r = record_at::<SlideSpecHeader>(le_bytes(ws), 0);
    assert(r == SlideSpecHeader::spec_from_words(ws));
    let w: [u32; 8] = [ws[25], ws[26], ws[27], ws[28], ws[29], ws[30], ws[31], ws[32]];
    assert(w@ =~= ws.subrange(25, 33));
    assert(r._reserved@ == ws.subrange(25, 33));
    assert forall|j: int| 0 <= j < 8 implies r._reserved@[j] == ws[25 + j] by {
        assert(ws.subrange(25, 33)[j] == ws[25 + j]);
    }
}

/// A [`TextureDescMem`] is read from its wire bytes field by field in declaration order, one
/// little-endian word each: the record stored as the bytes of words `ws` has field `i`
/// equal to `ws[i]`.
pub proof fn texture_desc_mem_layout(ws: Seq<u32>)
    requires
        ws.len() == 13,
    ensures
        ({
            let r = record_at::<TextureDescMem>(le_bytes(ws), 0);
            &&& r.label_ptr == ws[0]
            &&& r.label_len == ws[1]
            &&& r.width == ws[2]
            &&& r.height == ws[3]
            &&& r.format == ws[4]
            &&& r.wrap_u == ws[5]
            &&& r.wrap_v == ws[6]
            &&& r.wrap_w == ws[7]
            &&& r.mag_filter == ws[8]
            &&& r.min_filter == ws[9]
            &&& r.mip_filter == ws[10]
            &&& r.data_ptr == ws[11]
            &&& r.data_len == ws[12]
        }),
{
    words_read_back(ws);
    assert(record_at::<TextureDescMem>(le_bytes(ws), 0) == TextureDescMem::spec_from_words(ws));
}

/// A [`StaticMeshMem`] is read from its wire bytes field by field in declaration order, one
/// little-endian word each: the record stored as the bytes of words `ws` has field `i`
/// equal to `ws[i]`.
pub proof fn static_mesh_mem_layout(ws: Seq<u32>)
    requires
        ws.len() == 6,
    ensures
        ({
            let r = record_at::<StaticMeshMem>(le_bytes(ws), 0);
            &&& r.label_ptr == ws[0]
            &&& r.label_len == ws[1]
            &&& r.vertices_ptr == ws[2]
            &&& r.vertices_count == ws[3]
            &&& r.indices_ptr == ws[4]
            &&& r.indices_count == ws[5]
        }),
{
    words_read_back(ws);
    assert(record_at::<StaticMeshMem>(le_bytes(ws), 0) == StaticMeshMem::spec_from_words(ws));
}

/// A [`DynamicMeshMem`] is read from its wire bytes field by field in declaration order, one
/// little-endian word each: the record stored as the bytes of words `ws` has field `i`
/// equal to `ws[i]`.
pub proof fn dynamic_mesh_mem_layout(ws: Seq<u32>)
    requires
        ws.len() == 5,
    ensures
        ({
            let r = record_at::<DynamicMeshMem>(le_bytes(ws), 0);
            &&& r.label_ptr == ws[0]
            &&& r.label_len == ws[1]
            &&& r.max_vertices == ws[2]
            &&& r.indices_ptr == ws[3]
            &&& r.indices_count == ws[4]
        }),
{
    words_read_back(ws);
    assert(record_at::<DynamicMeshMem>(le_bytes(ws), 0) == DynamicMeshMem::spec_from_words(ws));
}

/// A [`DrawSpecMem`] is read from its wire bytes field by field in declaration order, one
/// little-endian word each: the record stored as the bytes of words `ws` has field `i`
/// equal to `ws[i]`.
pub proof fn draw_spec_mem_layout(ws: Seq<u32>)
    requires
        ws.len() == 7,
    ensures
        ({
            let r = record_at::<DrawSpecMem>(le_bytes(ws), 0);
            &&& r.label_ptr == ws[0]
            &&& r.label_len == ws[1]
            &&& r.source_type == ws[2]
            &&& r.source_index == ws[3]
            &&& r.pipeline == ws[4]
            &&& r.index_start == ws[5]
            &&& r.index_count == ws[6]
        }),
{
    words_read_back(ws);
    assert(record_at::<DrawSpecMem>(le_bytes(ws), 0) == DrawSpecMem::spec_from_words(ws));
}

/// A [`CameraPathMem`] is read from its wire bytes field by field in declaration order, one
/// little-endian word each: the record stored as the bytes of words `ws` has field `i`
/// equal to `ws[i]`.
pub proof fn camera_path_mem_layout(ws: Seq<u32>)
    requires
        ws.len() == 3,
    ensures
        ({
            let r = record_at::<CameraPathMem>(le_bytes(ws), 0);
            &&& r.looped == ws[0]
            &&& r.keyframes_count == ws[1]
            &&& r.keyframes_offset == ws[2]
        }),
{
    words_read_back(ws);
    assert(record_at::<CameraPathMem>(le_bytes(ws), 0) == CameraPathMem::spec_from_words(ws));
}

/// A [`RuntimeOverlayHeader`] is read from its wire bytes field by field in declaration order, one
/// little-endian word each: the record stored as the bytes of words `ws` has field `i`
/// equal to `ws[i]`.
pub proof fn runtime_overlay_header_layout(ws: Seq<u32>)
    requires
        ws.len() == 4,
    ensures
        ({
            let r = record_at::<RuntimeOverlayHeader>(le_bytes(ws), 0);
            &&& r.vertices_ptr == ws[0]
            &&& r.vertices_count == ws[1]
            &&& r.indices_ptr == ws[2]
            &&& r.indices_count == ws[3]
        }),
{
    words_read_back(ws);
    assert(record_at::<RuntimeOverlayHeader>(le_bytes(ws), 0) == RuntimeOverlayHeader::spec_from_words(ws));
}

/// A [`RuntimeMeshHeader`] is read from its wire bytes field by field in declaration order, one
/// little-endian word each: the record stored as the bytes of words `ws` has field `i`
/// equal to `ws[i]`.
pub proof fn runtime_mesh_header_layout(ws: Seq<u32>)
    requires
        ws.len() == 4,
    ensures
        ({
            let r = record_at::<RuntimeMeshHeader>(le_bytes(ws), 0);
            &&& r.mesh_index == ws[0]
            &&& r.vertices_ptr == ws[1]
            &&& r.vertices_count == ws[2]
            &&& r.index_count == ws[3]
        }),
{
    words_read_back(ws);
    assert(record_at::<RuntimeMeshHeader>(le_bytes(ws), 0) == RuntimeMeshHeader::spec_from_words(ws));
}

/// A [`RuntimeMeshSetHeader`] is read from its wire bytes field by field in declaration order, one
/// little-endian word each: the record stored as the bytes of words `ws` has field `i`
/// equal to `ws[i]`.
pub proof fn runtime_mesh_set_header_layout(ws: Seq<u32>)
    requires
        ws.len() == 2,
    ensures
        ({
            let r = record_at::<RuntimeMeshSetHeader>(le_bytes(ws), 0);
            &&& r.meshes_count == ws[0]
            &&& r.meshes_offset == ws[1]
        }),
{
    words_read_back(ws);
    assert(record_at::<RuntimeMeshSetHeader>(le_bytes(ws), 0) == RuntimeMeshSetHeader::spec_from_words(ws));
}

} // verus!
