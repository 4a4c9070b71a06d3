use vzglyd_kernel::shared_mem::{LimitsMem, SharedMemoryBuilder, SlideSpecHeader, WIRE_VERSION};
use vzglyd_kernel::slide::{
    decode_spec_from_memory, read_dynamic_meshes_from_memory, read_overlay_from_memory, read_string,
    SpecDecodeError,
};

#[test]
fn unsupported_version() {
    let mut builder = SharedMemoryBuilder::new();
    let (name_ptr, name_len) = builder.write_string("Test");

    let header = SlideSpecHeader {
        version: 99, // Wrong version
        name_ptr,
        name_len,
        ..Default::default()
    };

    let layout = builder.build(header);
    let memory = layout.as_slice();

    let result = decode_spec_from_memory(memory, 0);
    assert!(matches!(result, Err(SpecDecodeError::UnsupportedVersion(99))));
}

#[test]
fn shared_memory_decode() {
    let mut builder = SharedMemoryBuilder::new();
    let (name_ptr, name_len) = builder.write_string("Test Slide");

    let header = SlideSpecHeader {
        version: WIRE_VERSION,
        name_ptr,
        name_len,
        limits: LimitsMem {
            max_vertices: 60000,
            max_indices: 120000,
            ..Default::default()
        },
        scene_space: 0, // Screen2D
        ..Default::default()
    };

    let layout = builder.build(header);
    let memory = layout.as_slice();

    let result = decode_spec_from_memory(memory, 0);
    assert!(result.is_ok());

    let spec_view = result.unwrap();
    assert_eq!(spec_view.name, "Test Slide");
    assert_eq!(spec_view.limits.max_vertices, 60000);
    assert_eq!(spec_view.scene_space, 0);
}

#[test]
fn decode_reports_out_of_bounds_header() {
    let memory = [0u8; 16];
    assert!(matches!(
        decode_spec_from_memory(&memory, 0),
        Err(SpecDecodeError::OutOfBounds(_))
    ));
}

#[test]
fn read_string_rejects_invalid_utf8() {
    let memory = [0xffu8, 0xfe, b'a'];
    assert!(matches!(
        read_string(&memory, 0, 2),
        Err(SpecDecodeError::InvalidUtf8(_))
    ));
    assert_eq!(read_string(&memory, 2, 1).unwrap(), "a");
    assert!(matches!(
        read_string(&memory, 2, 2),
        Err(SpecDecodeError::OutOfBounds(_))
    ));
}

#[test]
fn decode_error_messages() {
    assert_eq!(
        SpecDecodeError::UnsupportedVersion(99).message(),
        "unsupported slide wire version 99, expected 2"
    );
    assert_eq!(
        SpecDecodeError::OutOfBounds("string at 7 out of bounds".into()).message(),
        "memory access out of bounds: string at 7 out of bounds"
    );
    let memory = [0xffu8];
    match read_string(&memory, 0, 1) {
        Err(e) => {
            let m = e.message();
            assert!(m.starts_with("invalid UTF-8 in string: "), "{m}");
            assert!(m.len() > "invalid UTF-8 in string: ".len(), "{m}");
        }
        Ok(s) => panic!("decoded {s:?}"),
    }
}

#[test]
fn written_textures_decode() {
    let mut builder = SharedMemoryBuilder::new();
    let (name_ptr, name_len) = builder.write_string("Tex");
    let words: Vec<u32> = (1..=26).collect();
    let bytes: Vec<u8> = words.iter().flat_map(|w| w.to_le_bytes()).collect();
    let (textures_offset, textures_count) = builder.write_array_bytes(&bytes, 2);
    assert_eq!(textures_offset, name_ptr + name_len);
    let header = SlideSpecHeader {
        version: WIRE_VERSION,
        name_ptr,
        name_len,
        textures_offset,
        textures_count,
        ..Default::default()
    };
    let layout = builder.build(header);
    let spec = decode_spec_from_memory(layout.as_slice(), 0).unwrap();
    assert_eq!(spec.name, "Tex");
    assert_eq!(spec.textures.len(), 2);
    assert_eq!(spec.textures[0].label_ptr, 1);
    assert_eq!(spec.textures[0].width, 3);
    assert_eq!(spec.textures[0].data_len, 13);
    assert_eq!(spec.textures[1].label_ptr, 14);
    assert_eq!(spec.textures[1].data_len, 26);
}

fn words_le(words: &[u32]) -> Vec<u8> {
    words.iter().flat_map(|w| w.to_le_bytes()).collect()
}

#[test]
fn overlay_reads_vertices_and_indices() {
    // Header at 0: vertices at 16 (2 vertices of 4 bytes), indices at 24 (3 u16).
    let mut mem = words_le(&[16, 2, 24, 3]);
    mem.extend_from_slice(&[1, 2, 3, 4, 5, 6, 7, 8]);
    mem.extend_from_slice(&[0, 0, 1, 0, 2, 0]);
    let overlay = read_overlay_from_memory(&mem, 0, 1, 4).unwrap().unwrap();
    assert_eq!(overlay.vertex_count, 2);
    assert_eq!(overlay.vertices, vec![1, 2, 3, 4, 5, 6, 7, 8]);
    assert_eq!(overlay.indices, vec![0, 1, 2]);
    assert!(read_overlay_from_memory(&mem, 0, 0, 4).unwrap().is_none());
    assert!(matches!(
        read_overlay_from_memory(&mem, 100, 1, 4),
        Err(SpecDecodeError::OutOfBounds(_))
    ));
}

#[test]
fn dynamic_meshes_read_each_update() {
    // Set header at 0: one mesh header at 8; its vertices (1 of 4 bytes) at 24.
    let mut mem = words_le(&[1, 8]);
    mem.extend(words_le(&[7, 24, 1, 3]));
    mem.extend_from_slice(&[9, 8, 7, 6]);
    let set = read_dynamic_meshes_from_memory(&mem, 0, 1, 4).unwrap().unwrap();
    assert_eq!(set.meshes.len(), 1);
    assert_eq!(set.meshes[0].mesh_index, 7);
    assert_eq!(set.meshes[0].vertices, vec![9, 8, 7, 6]);
    assert_eq!(set.meshes[0].vertex_count, 1);
    assert_eq!(set.meshes[0].index_count, 3);
    assert!(read_dynamic_meshes_from_memory(&mem, 0, 0, 4).unwrap().is_none());
}
