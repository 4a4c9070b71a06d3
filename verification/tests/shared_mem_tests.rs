use vzglyd_kernel::shared_mem::{
    LimitsMem, SharedMemoryBuilder, SlideSpecHeader, HEADER_SIZE, WIRE_VERSION,
};

#[test]
fn header_size_is_fixed() {
    // Header should be a reasonable fixed size
    let size = core::mem::size_of::<SlideSpecHeader>();
    assert!(size <= 256, "Header too large: {} bytes", size);
    assert_eq!(size, HEADER_SIZE as usize);
}

#[test]
fn builder_writes_strings() {
    let mut builder = SharedMemoryBuilder::new();
    let (ptr1, len1) = builder.write_string("hello");
    let (ptr2, len2) = builder.write_string("world");

    assert_eq!(ptr1, HEADER_SIZE);
    assert_eq!(len1, 5);
    assert_eq!(ptr2, ptr1 + len1);
    assert_eq!(len2, 5);
}

#[test]
fn builder_writes_arrays() {
    let mut builder = SharedMemoryBuilder::new();
    let data = [1u32, 2, 3, 4, 5];
    let bytes: Vec<u8> = data.iter().flat_map(|v| v.to_le_bytes()).collect();
    let (ptr, count) = builder.write_array_bytes(&bytes, data.len() as u32);

    assert_eq!(count, 5);
    assert!(ptr >= HEADER_SIZE);
}

#[test]
fn builder_produces_valid_layout() {
    let mut builder = SharedMemoryBuilder::new();
    let (name_ptr, name_len) = builder.write_string("Test");

    let header = SlideSpecHeader {
        name_ptr,
        name_len,
        ..Default::default()
    };

    let layout = builder.build(header);

    // Verify header is at the start
    assert_eq!(layout.header().version, WIRE_VERSION);
    assert_eq!(layout.header().name_ptr, name_ptr);
    assert_eq!(layout.header().name_len, name_len);
}

#[test]
fn string_roundtrip() {
    let mut builder = SharedMemoryBuilder::new();
    let test_string = "Hello, World! This is a test string.";
    let (ptr, len) = builder.write_string(test_string);

    let layout = builder.build(SlideSpecHeader::default());

    // Read back the string
    let start = ptr as usize;
    let end = start + len as usize;
    let bytes = &layout.as_slice()[start..end];
    let read_string = std::str::from_utf8(bytes).unwrap();

    assert_eq!(read_string, test_string);
}

#[test]
fn array_roundtrip() {
    let mut builder = SharedMemoryBuilder::new();
    let test_data: Vec<f32> = vec![1.0, 2.0, 3.0, 4.0, 5.0];
    let (ptr, count) = builder.write_array_bytes(bytemuck::cast_slice(&test_data), test_data.len() as u32);

    let layout = builder.build(SlideSpecHeader::default());

    // Read back the array
    let start = ptr as usize;
    let end = start + (count as usize * core::mem::size_of::<f32>());
    let bytes = &layout.as_slice()[start..end];
    let read_data: Vec<f32> = bytes
        .chunks_exact(4)
        .map(|c| f32::from_le_bytes([c[0], c[1], c[2], c[3]]))
        .collect();

    assert_eq!(read_data, test_data);
}

#[test]
fn writes_land_at_returned_pointers() {
    let mut builder = SharedMemoryBuilder::new();
    let (aptr, count) = builder.write_array_bytes(&[1, 0, 0, 0], 1);
    assert_eq!((aptr, count), (HEADER_SIZE, 1));
    assert_eq!(builder.current_array_offset(), HEADER_SIZE + 4);
    assert_eq!(builder.current_string_offset(), HEADER_SIZE + 4);
    let (sptr, slen) = builder.write_string("abc");
    assert_eq!((sptr, slen), (HEADER_SIZE + 4, 3));
    assert_eq!(builder.current_string_offset(), HEADER_SIZE + 7);
    assert_eq!(builder.current_array_offset(), HEADER_SIZE + 7);
    let (bptr, blen) = builder.write_bytes(&[9, 9], 8);
    assert_eq!(bptr % 8, 0);
    assert_eq!(bptr, 144);
    assert_eq!(blen, 2);
    assert_eq!(builder.len(), 146);
    let layout = builder.build(SlideSpecHeader::default());
    assert_eq!(layout.header_size(), HEADER_SIZE);
    assert_eq!(layout.total_size(), layout.as_slice().len());
    let mem = layout.as_slice();
    assert_eq!(&mem[aptr as usize..aptr as usize + 4], &[1, 0, 0, 0]);
    assert_eq!(&mem[sptr as usize..(sptr + slen) as usize], b"abc");
    assert_eq!(&mem[bptr as usize..(bptr + blen) as usize], &[9, 9]);
    assert_eq!(&mem[(sptr + slen) as usize..bptr as usize], &[0, 0, 0, 0, 0]);
}

#[test]
fn string_then_bytes_keep_both() {
    let mut builder = SharedMemoryBuilder::new();
    let (sptr, slen) = builder.write_string("hello");
    assert_eq!((sptr, slen), (HEADER_SIZE, 5));
    let (bptr, blen) = builder.write_bytes(&[1, 2, 3], 4);
    assert_eq!((bptr, blen), (140, 3));
    let layout = builder.build(SlideSpecHeader::default());
    let mem = layout.as_slice();
    assert_eq!(&mem[sptr as usize..(sptr + slen) as usize], b"hello");
    assert_eq!(&mem[bptr as usize..(bptr + blen) as usize], &[1, 2, 3]);
}

#[test]
fn write_bytes_on_fresh_builder_aligns() {
    let mut builder = SharedMemoryBuilder::new();
    assert_eq!(builder.write_bytes(&[1, 2, 3], 8), (136, 3));
    assert_eq!(builder.len(), 139);
}

#[test]
fn header_roundtrips_limits() {
    let header = SlideSpecHeader {
        limits: LimitsMem {
            max_vertices: 7,
            max_texture_dim: 2048,
            ..Default::default()
        },
        scene_space: 1,
        draws_count: 3,
        ..Default::default()
    };
    let layout = SharedMemoryBuilder::new().build(header);
    assert_eq!(layout.header(), header);
    assert_eq!(&layout.as_slice()[0..4], &WIRE_VERSION.to_le_bytes());
}
