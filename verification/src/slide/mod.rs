//! Reading a slide's spec and per-frame updates out of its linear memory
//! (wire format version 2), and the older slide-manifest model.
//!
//! Only wire format version 2 (the shared memory layout) is supported.

pub mod manifest;

use vstd::prelude::*;
use vstd::utf8::{decode_utf8, encode_utf8, valid_utf8};

use crate::shared_mem::{
    header_words, le_bytes, lemma_header_roundtrip, record_words, HEADER_SIZE,
    read_records, read_word, record_at, records_at, DrawSpecMem, DynamicMeshMem, RuntimeMeshHeader,
    RuntimeMeshSetHeader, RuntimeOverlayHeader, SlideSpecHeader, StaticMeshMem, TextureDescMem,
    WireRecord, WIRE_VERSION,
};
use crate::text::{concat2, concat3, decimal, decimal_string};

verus! {

/// `core::str::Utf8Error`, the error of a failed UTF-8 decoding.
#[verifier::external_type_specification]
#[verifier::external_body]
pub struct ExUtf8Error(core::str::Utf8Error);

/// `core::str::from_utf8`: the bytes as text when they are valid UTF-8.
/// The error value's details (where decoding stopped) are not described.
#[verifier::external_body]
fn utf8_text(bytes: &[u8]) -> (r: Result<String, core::str::Utf8Error>)
    ensures
        r is Ok <==> valid_utf8(bytes@),
        r matches Ok(s) ==> s@ == decode_utf8(bytes@),
{
    core::str::from_utf8(bytes).map(|s| s.to_string())
}

/// Errors that can occur during slide spec decoding.
#[derive(Debug)]
pub enum SpecDecodeError {
    /// Unsupported wire format version.
    UnsupportedVersion(u32),
    /// Invalid UTF-8 in a string.
    InvalidUtf8(core::str::Utf8Error),
    /// Memory out of bounds.
    OutOfBounds(String),
}

/// What a decoding error says.
pub enum DecodeIssue {
    /// Unsupported wire format version.
    UnsupportedVersion(u32),
    /// A string was not valid UTF-8.
    InvalidUtf8,
    /// A read fell outside memory; the message says where.
    OutOfBounds(Seq<char>),
}

impl View for SpecDecodeError {
    type V = DecodeIssue;

    open spec fn view(&self) -> DecodeIssue {
        match self {
            SpecDecodeError::UnsupportedVersion(v) => DecodeIssue::UnsupportedVersion(*v),
            SpecDecodeError::InvalidUtf8(_) => DecodeIssue::InvalidUtf8,
            SpecDecodeError::OutOfBounds(m) => DecodeIssue::OutOfBounds(m@),
        }
    }
}

/// `Display` of `core::str::Utf8Error`. The contract claims nothing of the text, which
/// tells where decoding stopped.
#[verifier::external_body]
fn utf8_error_text(e: &core::str::Utf8Error) -> String {
    e.to_string()
}

/// The text of a decoding error other than invalid UTF-8, whose text ends with the UTF-8
/// error's own description.
pub open spec fn decode_issue_text(i: DecodeIssue) -> Seq<char> {
    match i {
        DecodeIssue::UnsupportedVersion(v) => "unsupported slide wire version "@ + decimal(v as nat)
            + ", expected 2"@,
        DecodeIssue::InvalidUtf8 => "invalid UTF-8 in string: "@,
        DecodeIssue::OutOfBounds(m) => "memory access out of bounds: "@ + m,
    }
}

impl SpecDecodeError {
    /// The error's text; for invalid UTF-8 it goes on with the UTF-8 error's description.
    pub fn message(&self) -> (r: String)
        ensures
            self@ is InvalidUtf8 ==> r@.take(decode_issue_text(self@).len() as int) == decode_issue_text(self@),
            !(self@ is InvalidUtf8) ==> r@ == decode_issue_text(self@),
    {
        match self {
            SpecDecodeError::UnsupportedVersion(v) => {
                let n = decimal_string(*v as usize);
                concat3("unsupported slide wire version ", n.as_str(), ", expected 2")
            },
            SpecDecodeError::InvalidUtf8(e) => {
                let detail = utf8_error_text(e);
                let r = concat2("invalid UTF-8 in string: ", detail.as_str());
                assert(r@.take(decode_issue_text(self@).len() as int) =~= decode_issue_text(self@));
                r
            },
            SpecDecodeError::OutOfBounds(m) => concat2("memory access out of bounds: ", m.as_str()),
        }
    }
}

/// Resource limits a slide declares.
#[derive(Debug, Clone, Copy, Default, PartialEq, Eq, Structural)]
pub struct Limits {
    /// Maximum vertices per mesh.
    pub max_vertices: u32,
    /// Maximum indices per mesh.
    pub max_indices: u32,
    /// Maximum static meshes.
    pub max_static_meshes: u32,
    /// Maximum dynamic meshes.
    pub max_dynamic_meshes: u32,
    /// Maximum textures.
    pub max_textures: u32,
    /// Maximum bytes per texture.
    pub max_texture_bytes: u32,
    /// Maximum texture dimension.
    pub max_texture_dim: u32,
}

/// A slide spec read out of linear memory.
#[derive(Debug)]
pub struct SlideSpecView {
    /// Slide name.
    pub name: String,
    /// Resource limits.
    pub limits: Limits,
    /// Scene space (0 = Screen2D, 1 = World3D).
    pub scene_space: u32,
    /// Textures.
    pub textures: Vec<TextureDescMem>,
    /// Static meshes.
    pub static_meshes: Vec<StaticMeshMem>,
    /// Dynamic meshes.
    pub dynamic_meshes: Vec<DynamicMeshMem>,
    /// Draw specs.
    pub draws: Vec<DrawSpecMem>,
}

/// The content of a decoded slide spec.
pub struct SlideSpecContent {
    /// Slide name.
    pub name: Seq<char>,
    /// Resource limits.
    pub limits: Limits,
    /// Scene space.
    pub scene_space: u32,
    /// Textures.
    pub textures: Seq<TextureDescMem>,
    /// Static meshes.
    pub static_meshes: Seq<StaticMeshMem>,
    /// Dynamic meshes.
    pub dynamic_meshes: Seq<DynamicMeshMem>,
    /// Draw specs.
    pub draws: Seq<DrawSpecMem>,
}

impl View for SlideSpecView {
    type V = SlideSpecContent;

    open spec fn view(&self) -> SlideSpecContent {
        SlideSpecContent {
            name: self.name@,
            limits: self.limits,
            scene_space: self.scene_space,
            textures: self.textures@,
            static_meshes: self.static_meshes@,
            dynamic_meshes: self.dynamic_meshes@,
            draws: self.draws@,
        }
    }
}

// ── Bounds ───────────────────────────────────────────────────────────────────

/// Whether `size` bytes from `start` lie within memory of length `len`.
pub open spec fn fits(len: nat, start: int, size: int) -> bool {
    start + size <= len
}

/// `<what> at <ptr> out of bounds`.
pub open spec fn out_of_bounds(what: Seq<char>, ptr: u32) -> DecodeIssue {
    DecodeIssue::OutOfBounds(what + " at "@ + decimal(ptr as nat) + " out of bounds"@)
}

fn out_of_bounds_error(what: &str, ptr: u32) -> (e: SpecDecodeError)
    ensures
        e@ == out_of_bounds(what@, ptr),
{
    let mut m = concat3(what, " at ", decimal_string(ptr as usize).as_str());
    m.append(" out of bounds");
    SpecDecodeError::OutOfBounds(m)
}

/// Bytes per record of type `T`.
pub open spec fn record_size<T: WireRecord>() -> int {
    4 * (T::spec_word_count() as int)
}

/// Reads the record of type `T` at `ptr`.
fn read_struct<T: WireRecord>(memory: &[u8], ptr: u32) -> (r: Result<T, SpecDecodeError>)
    ensures
        r is Ok <==> fits(memory@.len(), ptr as int, record_size::<T>()),
        r matches Ok(v) ==> v == record_at::<T>(memory@, ptr as int),
        r matches Err(e) ==> e@ == out_of_bounds("struct"@, ptr),
{
    let size = 4 * T::word_count();
    if (ptr as u64) + (size as u64) > memory.len() as u64 {
        return Err(out_of_bounds_error("struct", ptr));
    }
    Ok(crate::shared_mem::read_record::<T>(memory, ptr as usize))
}

/// What reading the string at `ptr` of `len` bytes gives.
pub open spec fn string_result(mem: Seq<u8>, ptr: u32, len: u32) -> Result<Seq<char>, DecodeIssue> {
    if len == 0 {
        Ok(Seq::empty())
    } else if !fits(mem.len(), ptr as int, len as int) {
        Err(out_of_bounds("string"@, ptr))
    } else if !valid_utf8(mem.subrange(ptr as int, ptr + len)) {
        Err(DecodeIssue::InvalidUtf8)
    } else {
        Ok(decode_utf8(mem.subrange(ptr as int, ptr + len)))
    }
}

/// Reads a UTF-8 string of `len` bytes at `ptr`; an empty string when `len` is 0.
pub fn read_string(memory: &[u8], ptr: u32, len: u32) -> (r: Result<String, SpecDecodeError>)
    ensures
        match string_result(memory@, ptr, len) {
            Ok(s) => r matches Ok(t) && t@ == s,
            Err(i) => r matches Err(e) && e@ == i,
        },
{
    if len == 0 {
        return Ok(String::new());
    }
    if (ptr as u64) + (len as u64) > memory.len() as u64 {
        return Err(out_of_bounds_error("string", ptr));
    }
    let start = ptr as usize;
    let end = start + len as usize;
    match utf8_text(&memory[start..end]) {
        Ok(s) => Ok(s),
        Err(e) => Err(SpecDecodeError::InvalidUtf8(e)),
    }
}

/// What reading `count` records of type `T` at `offset` gives.
pub open spec fn array_result<T: WireRecord>(mem: Seq<u8>, offset: u32, count: u32) -> Result<
    Seq<T>,
    DecodeIssue,
> {
    if count == 0 {
        Ok(Seq::empty())
    } else if !fits(mem.len(), offset as int, count * record_size::<T>()) {
        Err(out_of_bounds("array"@, offset))
    } else {
        Ok(records_at::<T>(mem, offset as int, count as nat))
    }
}

/// Reads an array of `count` records of type `T` at `offset`.
fn read_array<T: WireRecord>(memory: &[u8], offset: u32, count: u32) -> (r: Result<
    Vec<T>,
    SpecDecodeError,
>)
    ensures
        match array_result::<T>(memory@, offset, count) {
            Ok(s) => r matches Ok(v) && v@ == s,
            Err(i) => r matches Err(e) && e@ == i,
        },
{
    if count == 0 {
        let v: Vec<T> = Vec::new();
        return Ok(v);
    }
    let size = 4 * T::word_count();
    assert((count as u64) * (size as u64) <= 0xffff_ffffu64 * 256) by (nonlinear_arith)
        requires
            count <= 0xffff_ffffu32,
            size <= 256,
    ;
    let total = (count as u64) * (size as u64);
    if (offset as u64) + total > memory.len() as u64 {
        return Err(out_of_bounds_error("array", offset));
    }
    assert(4 * T::spec_word_count() * count == count * record_size::<T>()) by (nonlinear_arith);
    Ok(read_records::<T>(memory, offset as usize, count as usize))
}

// ── Slide spec ───────────────────────────────────────────────────────────────

/// The first problem met when decoding the slide spec whose header is at `ptr`.
pub open spec fn decode_issue(mem: Seq<u8>, ptr: u32) -> Option<DecodeIssue> {
    if !fits(mem.len(), ptr as int, record_size::<SlideSpecHeader>()) {
        Some(out_of_bounds("struct"@, ptr))
    } else {
        let h = record_at::<SlideSpecHeader>(mem, ptr as int);
        if h.version != WIRE_VERSION {
            Some(DecodeIssue::UnsupportedVersion(h.version))
        } else if string_result(mem, h.name_ptr, h.name_len) is Err {
            Some(string_result(mem, h.name_ptr, h.name_len)->Err_0)
        } else if array_result::<TextureDescMem>(mem, h.textures_offset, h.textures_count) is Err {
            Some(array_result::<TextureDescMem>(mem, h.textures_offset, h.textures_count)->Err_0)
        } else if array_result::<StaticMeshMem>(
            mem,
            h.static_meshes_offset,
            h.static_meshes_count,
        ) is Err {
            Some(
                array_result::<StaticMeshMem>(
                    mem,
                    h.static_meshes_offset,
                    h.static_meshes_count,
                )->Err_0,
            )
        } else if array_result::<DynamicMeshMem>(
            mem,
            h.dynamic_meshes_offset,
            h.dynamic_meshes_count,
        ) is Err {
            Some(
                array_result::<DynamicMeshMem>(
                    mem,
                    h.dynamic_meshes_offset,
                    h.dynamic_meshes_count,
                )->Err_0,
            )
        } else if array_result::<DrawSpecMem>(mem, h.draws_offset, h.draws_count) is Err {
            Some(array_result::<DrawSpecMem>(mem, h.draws_offset, h.draws_count)->Err_0)
        } else {
            None
        }
    }
}

/// What decoding accepts: only a header that lies in memory, carries wire version 2, and
/// whose name and every declared array lie in memory; an in-bounds header with another
/// version is refused as unsupported, naming that version; a header that does not fit is
/// refused as out of bounds.
pub proof fn decode_acceptance_rule(mem: Seq<u8>, ptr: u32)
    ensures
        !fits(mem.len(), ptr as int, 132) ==> decode_issue(mem, ptr) == Some(
            out_of_bounds("struct"@, ptr),
        ),
        fits(mem.len(), ptr as int, 132) && record_at::<SlideSpecHeader>(mem, ptr as int).version != 2
            ==> decode_issue(mem, ptr) == Some(
            DecodeIssue::UnsupportedVersion(record_at::<SlideSpecHeader>(mem, ptr as int).version),
        ),
        decode_issue(mem, ptr) is None ==> ({
            let h = record_at::<SlideSpecHeader>(mem, ptr as int);
            &&& fits(mem.len(), ptr as int, 132)
            &&& h.version == 2
            &&& (h.name_len == 0 || fits(mem.len(), h.name_ptr as int, h.name_len as int))
            &&& (h.textures_count == 0 || fits(mem.len(), h.textures_offset as int, 52 * h.textures_count))
            &&& (h.static_meshes_count == 0 || fits(
                mem.len(),
                h.static_meshes_offset as int,
                24 * h.static_meshes_count,
            ))
            &&& (h.dynamic_meshes_count == 0 || fits(
                mem.len(),
                h.dynamic_meshes_offset as int,
                20 * h.dynamic_meshes_count,
            ))
            &&& (h.draws_count == 0 || fits(mem.len(), h.draws_offset as int, 28 * h.draws_count))
        }),
{
    assert(record_size::<SlideSpecHeader>() == 132);
    assert(record_size::<TextureDescMem>() == 52);
    assert(record_size::<StaticMeshMem>() == 24);
    assert(record_size::<DynamicMeshMem>() == 20);
    assert(record_size::<DrawSpecMem>() == 28);
}

/// What a successful decode gives: the header's name bytes read as UTF-8 (empty when its
/// length is 0), the header's limits and scene space, and for each array the records that
/// follow one another from its offset, as many as its count, each of its record size.
pub proof fn decoded_content_rule(mem: Seq<u8>, ptr: u32)
    requires
        decode_issue(mem, ptr) is None,
    ensures
        ({
            let h = record_at::<SlideSpecHeader>(mem, ptr as int);
            let d = decoded_spec(mem, ptr);
            &&& h.name_len == 0 ==> d.name == Seq::<char>::empty()
            &&& h.name_len > 0 ==> d.name == decode_utf8(
                mem.subrange(h.name_ptr as int, h.name_ptr + h.name_len),
            )
            &&& d.scene_space == h.scene_space
            &&& d.limits.max_vertices == h.limits.max_vertices
            &&& d.limits.max_indices == h.limits.max_indices
            &&& d.limits.max_static_meshes == h.limits.max_static_meshes
            &&& d.limits.max_dynamic_meshes == h.limits.max_dynamic_meshes
            &&& d.limits.max_textures == h.limits.max_textures
            &&& d.limits.max_texture_bytes == h.limits.max_texture_bytes
            &&& d.limits.max_texture_dim == h.limits.max_texture_dim
            &&& d.textures.len() == h.textures_count
            &&& forall|i: int|
                0 <= i < h.textures_count ==> #[trigger] d.textures[i] == record_at::<TextureDescMem>(
                    mem,
                    h.textures_offset + 52 * i,
                )
            &&& d.static_meshes.len() == h.static_meshes_count
            &&& forall|i: int|
                0 <= i < h.static_meshes_count ==> #[trigger] d.static_meshes[i] == record_at::<StaticMeshMem>(
                    mem,
                    h.static_meshes_offset + 24 * i,
                )
            &&& d.dynamic_meshes.len() == h.dynamic_meshes_count
            &&& forall|i: int|
                0 <= i < h.dynamic_meshes_count ==> #[trigger] d.dynamic_meshes[i] == record_at::<DynamicMeshMem>(
                    mem,
                    h.dynamic_meshes_offset + 20 * i,
                )
            &&& d.draws.len() == h.draws_count
            &&& forall|i: int|
                0 <= i < h.draws_count ==> #[trigger] d.draws[i] == record_at::<DrawSpecMem>(
                    mem,
                    h.draws_offset + 28 * i,
                )
        }),
{
    assert(record_size::<TextureDescMem>() == 52);
    assert(record_size::<StaticMeshMem>() == 24);
    assert(record_size::<DynamicMeshMem>() == 20);
    assert(record_size::<DrawSpecMem>() == 28);
}

/// The limits a header carries.
pub open spec fn header_limits(h: SlideSpecHeader) -> Limits {
    Limits {
        max_vertices: h.limits.max_vertices,
        max_indices: h.limits.max_indices,
        max_static_meshes: h.limits.max_static_meshes,
        max_dynamic_meshes: h.limits.max_dynamic_meshes,
        max_textures: h.limits.max_textures,
        max_texture_bytes: h.limits.max_texture_bytes,
        max_texture_dim: h.limits.max_texture_dim,
    }
}

/// The slide spec decoded from the header at `ptr`, when there is no issue.
pub open spec fn decoded_spec(mem: Seq<u8>, ptr: u32) -> SlideSpecContent {
    let h = record_at::<SlideSpecHeader>(mem, ptr as int);
    SlideSpecContent {
        name: string_result(mem, h.name_ptr, h.name_len)->Ok_0,
        limits: header_limits(h),
        scene_space: h.scene_space,
        textures: array_result::<TextureDescMem>(mem, h.textures_offset, h.textures_count)->Ok_0,
        static_meshes: array_result::<StaticMeshMem>(
            mem,
            h.static_meshes_offset,
            h.static_meshes_count,
        )->Ok_0,
        dynamic_meshes: array_result::<DynamicMeshMem>(
            mem,
            h.dynamic_meshes_offset,
            h.dynamic_meshes_count,
        )->Ok_0,
        draws: array_result::<DrawSpecMem>(mem, h.draws_offset, h.draws_count)->Ok_0,
    }
}

/// Reads a slide spec from shared memory (wire format v2).
///
/// Reads the header at `header_ptr`, checks the version, then the name and
/// the texture, static mesh, dynamic mesh and draw arrays it points to; the
/// first read that fails decides the error.
pub fn decode_spec_from_memory(memory: &[u8], header_ptr: u32) -> (r: Result<
    SlideSpecView,
    SpecDecodeError,
>)
    ensures
        match decode_issue(memory@, header_ptr) {
            None => r matches Ok(v) && v@ == decoded_spec(memory@, header_ptr),
            Some(i) => r matches Err(e) && e@ == i,
        },
{
    let header = read_struct::<SlideSpecHeader>(memory, header_ptr)?;
    if header.version != WIRE_VERSION {
        return Err(SpecDecodeError::UnsupportedVersion(header.version));
    }
    let name = read_string(memory, header.name_ptr, header.name_len)?;
    let textures = read_array::<TextureDescMem>(
        memory,
        header.textures_offset,
        header.textures_count,
    )?;
    let static_meshes = read_array::<StaticMeshMem>(
        memory,
        header.static_meshes_offset,
        header.static_meshes_count,
    )?;
    let dynamic_meshes = read_array::<DynamicMeshMem>(
        memory,
        header.dynamic_meshes_offset,
        header.dynamic_meshes_count,
    )?;
    let draws = read_array::<DrawSpecMem>(memory, header.draws_offset, header.draws_count)?;
    let limits = Limits {
        max_vertices: header.limits.max_vertices,
        max_indices: header.limits.max_indices,
        max_static_meshes: header.limits.max_static_meshes,
        max_dynamic_meshes: header.limits.max_dynamic_meshes,
        max_textures: header.limits.max_textures,
        max_texture_bytes: header.limits.max_texture_bytes,
        max_texture_dim: header.limits.max_texture_dim,
    };
    Ok(
        SlideSpecView {
            name,
            limits,
            scene_space: header.scene_space,
            textures,
            static_meshes,
            dynamic_meshes,
            draws,
        },
    )
}



/// What the builder writes, the decoder reads back. Take a builder, write a name, and build
/// with a version 2 header that points at the name and declares no arrays: decoding the header at offset 0 succeeds and gives that name, the
/// header's limits and scene space, and no textures, meshes or draws.
pub proof fn written_spec_decodes(before: Seq<u8>, name: Seq<char>, h: SlideSpecHeader)
    requires
        before.len() >= HEADER_SIZE,
        h.version == WIRE_VERSION,
        h.name_ptr == before.len(),
        h.name_len == encode_utf8(name).len(),
        h.textures_count == 0,
        h.static_meshes_count == 0,
        h.dynamic_meshes_count == 0,
        h.draws_count == 0,
    ensures
        decode_issue(le_bytes(header_words(h)) + (before + encode_utf8(name)).skip(HEADER_SIZE as int), 0)
            is None,
        decoded_spec(le_bytes(header_words(h)) + (before + encode_utf8(name)).skip(HEADER_SIZE as int), 0)
            == (SlideSpecContent {
            name,
            limits: header_limits(h),
            scene_space: h.scene_space,
            textures: Seq::empty(),
            static_meshes: Seq::empty(),
            dynamic_meshes: Seq::empty(),
            draws: Seq::empty(),
        }),
{
    let enc = encode_utf8(name);
    let rest = (before + enc).skip(HEADER_SIZE as int);
    let mem = le_bytes(header_words(h)) + rest;
    lemma_header_roundtrip(h, rest);
    crate::shared_mem::lemma_le_bytes_len(header_words(h));
    vstd::utf8::encode_utf8_valid_utf8(name);
    vstd::utf8::encode_utf8_decode_utf8(name);
    assert(mem.len() == before.len() + enc.len());
    if h.name_len > 0 {
        assert(mem.subrange(h.name_ptr as int, h.name_ptr + h.name_len) =~= enc);
    } else {
        assert(enc =~= Seq::<u8>::empty());
        assert(decode_utf8(Seq::<u8>::empty()) =~= Seq::<char>::empty()) by {
            assert(decode_utf8(enc) == name);
        }
    }
    let got = decoded_spec(mem, 0);
    assert(got.textures =~= Seq::<TextureDescMem>::empty());
    assert(got.static_meshes =~= Seq::<StaticMeshMem>::empty());
    assert(got.dynamic_meshes =~= Seq::<DynamicMeshMem>::empty());
    assert(got.draws =~= Seq::<DrawSpecMem>::empty());
}


/// An array the builder wrote reads back through the decoder: where a builder's buffer
/// holds, at `ptr` past the header space, the little-endian words `ws` of `count` records of
/// type `T`, reading `count` records at `ptr` from the layout built with any header succeeds
/// and gives the records those words encode, in order.
pub proof fn written_array_decodes<T: WireRecord>(
    buffer: Seq<u8>,
    ptr: u32,
    ws: Seq<u32>,
    count: u32,
    h: SlideSpecHeader,
)
    requires
        HEADER_SIZE <= ptr,
        ws.len() == count * T::spec_word_count(),
        ptr + 4 * ws.len() <= buffer.len(),
        buffer.subrange(ptr as int, ptr + 4 * ws.len()) == le_bytes(ws),
    ensures
        array_result::<T>(le_bytes(header_words(h)) + buffer.skip(HEADER_SIZE as int), ptr, count)
            == Ok::<Seq<T>, DecodeIssue>(
            Seq::new(
                count as nat,
                |i: int| T::spec_from_words(record_words(ws, T::spec_word_count(), i)),
            ),
        ),
{
    let mem = le_bytes(header_words(h)) + buffer.skip(HEADER_SIZE as int);
    crate::shared_mem::lemma_le_bytes_len(ws);
    crate::shared_mem::lemma_le_bytes_len(header_words(h));
    crate::shared_mem::written_bytes_read_back(buffer, ptr as int, le_bytes(ws), h);
    assert(mem.len() == buffer.len());
    assert(count * record_size::<T>() == 4 * ws.len()) by (nonlinear_arith)
        requires
            ws.len() == count * T::spec_word_count(),
            record_size::<T>() == 4 * (T::spec_word_count() as int),
    ;
    crate::shared_mem::records_read_back::<T>(mem, ptr as int, ws, count as nat);
    if count == 0 {
        assert(Seq::new(
            count as nat,
            |i: int| T::spec_from_words(record_words(ws, T::spec_word_count(), i)),
        ) =~= Seq::<T>::empty());
    }
}

// ── Per-frame updates ────────────────────────────────────────────────────────

/// What reading `count` elements of `elem_size` bytes at `offset` gives, as raw bytes.
pub open spec fn bytes_result(mem: Seq<u8>, offset: u32, count: u32, elem_size: u32) -> Result<
    Seq<u8>,
    DecodeIssue,
> {
    if count == 0 {
        Ok(Seq::empty())
    } else if !fits(mem.len(), offset as int, count * elem_size) {
        Err(out_of_bounds("array"@, offset))
    } else {
        Ok(mem.subrange(offset as int, offset + count * elem_size))
    }
}

/// Reads the raw bytes of `count` elements of `elem_size` bytes at `offset`.
fn read_bytes(memory: &[u8], offset: u32, count: u32, elem_size: u32) -> (r: Result<
    Vec<u8>,
    SpecDecodeError,
>)
    ensures
        match bytes_result(memory@, offset, count, elem_size) {
            Ok(s) => r matches Ok(v) && v@ == s,
            Err(i) => r matches Err(e) && e@ == i,
        },
{
    if count == 0 {
        return Ok(Vec::new());
    }
    assert((count as u64) * (elem_size as u64) <= 0xffff_ffffu64 * 0xffff_ffffu64)
        by (nonlinear_arith)
        requires
            count <= 0xffff_ffffu32,
            elem_size <= 0xffff_ffffu32,
    ;
    let total = (count as u64) * (elem_size as u64);
    if (offset as u64) + total > memory.len() as u64 {
        return Err(out_of_bounds_error("array", offset));
    }
    let start = offset as usize;
    let end = start + total as usize;
    let mut v: Vec<u8> = Vec::new();
    let mut i: usize = start;
    while i < end
        invariant
            start <= i <= end <= memory@.len(),
            v@ == memory@.subrange(start as int, i as int),
        decreases end - i,
    {
        v.push(memory[i]);
        assert(memory@.subrange(start as int, i + 1) == memory@.subrange(
            start as int,
            i as int,
        ).push(memory@[i as int]));
        i += 1;
    }
    Ok(v)
}

/// The little-endian `u16` at byte `at`.
pub open spec fn u16_at(mem: Seq<u8>, at: int) -> u16 {
    (mem[at] as int + 256 * (mem[at + 1] as int)) as u16
}

/// What reading `count` little-endian `u16` values at `offset` gives.
pub open spec fn u16s_result(mem: Seq<u8>, offset: u32, count: u32) -> Result<
    Seq<u16>,
    DecodeIssue,
> {
    if count == 0 {
        Ok(Seq::empty())
    } else if !fits(mem.len(), offset as int, 2 * count) {
        Err(out_of_bounds("array"@, offset))
    } else {
        Ok(Seq::new(count as nat, |k: int| u16_at(mem, offset + 2 * k)))
    }
}

/// Reads `count` little-endian `u16` values at `offset`.
fn read_u16s(memory: &[u8], offset: u32, count: u32) -> (r: Result<Vec<u16>, SpecDecodeError>)
    ensures
        match u16s_result(memory@, offset, count) {
            Ok(s) => r matches Ok(v) && v@ == s,
            Err(i) => r matches Err(e) && e@ == i,
        },
{
    if count == 0 {
        return Ok(Vec::new());
    }
    if (offset as u64) + 2 * (count as u64) > memory.len() as u64 {
        return Err(out_of_bounds_error("array", offset));
    }
    let start = offset as usize;
    let n = count as usize;
    let mut v: Vec<u16> = Vec::new();
    let mut k: usize = 0;
    let mlen = memory.len();
    while k < n
        invariant
            mlen == memory@.len(),
            start + 2 * n <= memory@.len(),
            start == offset,
            n == count,
            k <= n,
            v@.len() == k,
            forall|j: int| 0 <= j < k ==> v@[j] == u16_at(memory@, start + 2 * j),
        decreases n - k,
    {
        let lo = memory[start + 2 * k] as u16;
        let hi = memory[start + 2 * k + 1] as u16;
        v.push(lo + 256 * hi);
        k += 1;
    }
    assert(v@ =~= Seq::new(count as nat, |j: int| u16_at(memory@, offset + 2 * j)));
    Ok(v)
}

/// A runtime overlay read out of memory: raw vertex bytes and the index list.
#[derive(Debug, Clone)]
pub struct OverlayView {
    /// The vertex data, `vertex_count` vertices of the caller's vertex size.
    pub vertices: Vec<u8>,
    /// Number of vertices.
    pub vertex_count: u32,
    /// Index list.
    pub indices: Vec<u16>,
}

/// What reading the overlay whose header is at `ptr` gives; `len == 0` means no overlay.
pub open spec fn overlay_issue(mem: Seq<u8>, ptr: u32, len: u32, vertex_size: u32) -> Option<
    DecodeIssue,
> {
    if len == 0 {
        None
    } else if !fits(mem.len(), ptr as int, record_size::<RuntimeOverlayHeader>()) {
        Some(out_of_bounds("struct"@, ptr))
    } else {
        let h = record_at::<RuntimeOverlayHeader>(mem, ptr as int);
        if bytes_result(mem, h.vertices_ptr, h.vertices_count, vertex_size) is Err {
            Some(bytes_result(mem, h.vertices_ptr, h.vertices_count, vertex_size)->Err_0)
        } else if u16s_result(mem, h.indices_ptr, h.indices_count) is Err {
            Some(u16s_result(mem, h.indices_ptr, h.indices_count)->Err_0)
        } else {
            None
        }
    }
}

/// Reads a runtime overlay: `Ok(None)` when `len` is 0, otherwise the
/// [`RuntimeOverlayHeader`] at `ptr` and the vertices (of `vertex_size`
/// bytes each) and indices it points to.
pub fn read_overlay_from_memory(memory: &[u8], ptr: u32, len: u32, vertex_size: u32) -> (r: Result<
    Option<OverlayView>,
    SpecDecodeError,
>)
    ensures
        match overlay_issue(memory@, ptr, len, vertex_size) {
            Some(i) => r matches Err(e) && e@ == i,
            None => r matches Ok(o) && (o is Some <==> len != 0),
        },
        len == 0 ==> r matches Ok(None),
        r matches Ok(Some(o)) ==> ({
            let h = record_at::<RuntimeOverlayHeader>(memory@, ptr as int);
            &&& len != 0
            &&& o.vertex_count == h.vertices_count
            &&& o.vertices@ == bytes_result(
                memory@,
                h.vertices_ptr,
                h.vertices_count,
                vertex_size,
            )->Ok_0
            &&& o.indices@ == u16s_result(memory@, h.indices_ptr, h.indices_count)->Ok_0
        }),
{
    if len == 0 {
        return Ok(None);
    }
    let header = read_struct::<RuntimeOverlayHeader>(memory, ptr)?;
    let vertices = read_bytes(memory, header.vertices_ptr, header.vertices_count, vertex_size)?;
    let indices = read_u16s(memory, header.indices_ptr, header.indices_count)?;
    Ok(Some(OverlayView { vertices, vertex_count: header.vertices_count, indices }))
}

/// One mesh update read out of memory.
#[derive(Debug, Clone)]
pub struct MeshUpdateView {
    /// Index into the dynamic mesh array.
    pub mesh_index: u32,
    /// The vertex data, `vertex_count` vertices of the caller's vertex size.
    pub vertices: Vec<u8>,
    /// Number of vertices.
    pub vertex_count: u32,
    /// Number of indices to use.
    pub index_count: u32,
}

/// A set of mesh updates read out of memory.
#[derive(Debug, Clone)]
pub struct MeshSetView {
    /// Individual mesh updates.
    pub meshes: Vec<MeshUpdateView>,
}

/// The first mesh header among `hs` whose vertices cannot be read, as an issue.
pub open spec fn meshes_issue(mem: Seq<u8>, hs: Seq<RuntimeMeshHeader>, vertex_size: u32) -> Option<
    DecodeIssue,
>
    decreases hs.len(),
{
    if hs.len() == 0 {
        None
    } else {
        match meshes_issue(mem, hs.drop_last(), vertex_size) {
            Some(i) => Some(i),
            None => {
                let h = hs.last();
                if bytes_result(mem, h.vertices_ptr, h.vertices_count, vertex_size) is Err {
                    Some(bytes_result(mem, h.vertices_ptr, h.vertices_count, vertex_size)->Err_0)
                } else {
                    None
                }
            },
        }
    }
}

/// Whether `u` is the update that mesh header `h` describes.
pub open spec fn mesh_update_of(
    mem: Seq<u8>,
    h: RuntimeMeshHeader,
    vertex_size: u32,
    u: MeshUpdateView,
) -> bool {
    &&& u.mesh_index == h.mesh_index
    &&& u.vertex_count == h.vertices_count
    &&& u.index_count == h.index_count
    &&& u.vertices@ == bytes_result(mem, h.vertices_ptr, h.vertices_count, vertex_size)->Ok_0
}

/// The mesh headers of the set whose header is at `ptr`.
pub open spec fn mesh_headers(mem: Seq<u8>, ptr: u32) -> Seq<RuntimeMeshHeader> {
    let s = record_at::<RuntimeMeshSetHeader>(mem, ptr as int);
    array_result::<RuntimeMeshHeader>(mem, s.meshes_offset, s.meshes_count)->Ok_0
}

/// What reading the mesh set whose header is at `ptr` gives; `len == 0` means no updates.
pub open spec fn mesh_set_issue(mem: Seq<u8>, ptr: u32, len: u32, vertex_size: u32) -> Option<
    DecodeIssue,
> {
    if len == 0 {
        None
    } else if !fits(mem.len(), ptr as int, record_size::<RuntimeMeshSetHeader>()) {
        Some(out_of_bounds("struct"@, ptr))
    } else {
        let s = record_at::<RuntimeMeshSetHeader>(mem, ptr as int);
        if array_result::<RuntimeMeshHeader>(mem, s.meshes_offset, s.meshes_count) is Err {
            Some(array_result::<RuntimeMeshHeader>(mem, s.meshes_offset, s.meshes_count)->Err_0)
        } else {
            meshes_issue(mem, mesh_headers(mem, ptr), vertex_size)
        }
    }
}

proof fn lemma_meshes_issue_extends(
    mem: Seq<u8>,
    hs: Seq<RuntimeMeshHeader>,
    vertex_size: u32,
    n: int,
)
    requires
        0 <= n <= hs.len(),
        meshes_issue(mem, hs.take(n), vertex_size) is Some,
    ensures
        meshes_issue(mem, hs, vertex_size) == meshes_issue(mem, hs.take(n), vertex_size),
    decreases hs.len() - n,
{
    if n < hs.len() {
        assert(hs.drop_last().take(n) == hs.take(n));
        lemma_meshes_issue_extends(mem, hs.drop_last(), vertex_size, n);
    } else {
        assert(hs.take(n) == hs);
    }
}

/// Reads runtime mesh updates: `Ok(None)` when `len` is 0, otherwise the
/// [`RuntimeMeshSetHeader`] at `ptr`, its mesh headers, and each mesh's
/// vertices (of `vertex_size` bytes each), in order.
#[verifier::loop_isolation(false)]
pub fn read_dynamic_meshes_from_memory(
    memory: &[u8],
    ptr: u32,
    len: u32,
    vertex_size: u32,
) -> (r: Result<Option<MeshSetView>, SpecDecodeError>)
    ensures
        match mesh_set_issue(memory@, ptr, len, vertex_size) {
            Some(i) => r matches Err(e) && e@ == i,
            None => r matches Ok(o) && (o is Some <==> len != 0),
        },
        len == 0 ==> r matches Ok(None),
        r matches Ok(Some(set)) ==> ({
            let hs = mesh_headers(memory@, ptr);
            &&& len != 0
            &&& set.meshes@.len() == hs.len()
            &&& forall|k: int|
                0 <= k < hs.len() ==> mesh_update_of(
                    memory@,
                    hs[k],
                    vertex_size,
                    #[trigger] set.meshes@[k],
                )
        }),
{
    if len == 0 {
        return Ok(None);
    }
    let set_header = read_struct::<RuntimeMeshSetHeader>(memory, ptr)?;
    let headers = read_array::<RuntimeMeshHeader>(
        memory,
        set_header.meshes_offset,
        set_header.meshes_count,
    )?;
    let ghost hs = headers@;
    assert(hs == mesh_headers(memory@, ptr));
    let mut meshes: Vec<MeshUpdateView> = Vec::new();
    let mut i: usize = 0;
    while i < headers.len()
        invariant
            hs == headers@,
            hs == mesh_headers(memory@, ptr),
            i <= hs.len(),
            meshes_issue(memory@, hs.take(i as int), vertex_size) is None,
            meshes@.len() == i,
            forall|k: int|
                0 <= k < i ==> mesh_update_of(memory@, hs[k], vertex_size, #[trigger] meshes@[k]),
        decreases hs.len() - i,
    {
        let h = &headers[i];
        assert(hs.take(i + 1).drop_last() == hs.take(i as int));
        assert(hs.take(i + 1).last() == *h);
        let vertices = match read_bytes(memory, h.vertices_ptr, h.vertices_count, vertex_size) {
            Ok(v) => v,
            Err(e) => {
                proof {
                    lemma_meshes_issue_extends(memory@, hs, vertex_size, i + 1);
                }
                return Err(e);
            },
        };
        meshes.push(
            MeshUpdateView {
                mesh_index: h.mesh_index,
                vertices,
                vertex_count: h.vertices_count,
                index_count: h.index_count,
            },
        );
        i += 1;
    }
    assert(hs.take(hs.len() as int) == hs);
    Ok(Some(MeshSetView { meshes }))
}

} // verus!
