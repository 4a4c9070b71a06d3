use font8x8::UnicodeFonts;
use vzglyd_kernel::overlay::{
    build_font_atlas_rgba, normalize_text, push_quad_indices, ATLAS_GLYPHS, ATLAS_HEIGHT,
    ATLAS_WIDTH, GLYPH_PX,
};

#[test]
fn normalize_text_strips_control() {
    assert_eq!(normalize_text("hello\x00world"), "hello?world");
    assert_eq!(normalize_text("abc"), "abc");
    assert_eq!(normalize_text("\u{2014}"), "-");
}

#[test]
fn normalize_text_maps_typography() {
    assert_eq!(
        normalize_text("\u{2018}a\u{2019} \u{201C}b\u{201D} \u{2013}\u{2212}\u{2026}"),
        "'a' \"b\" --..."
    );
    assert_eq!(normalize_text("caf\u{e9}\x7f\n"), "caf???");
    assert_eq!(normalize_text(""), "");
}

#[test]
fn font_atlas_pixels_cover_ascii() {
    let atlas = build_font_atlas_rgba();
    let (pixels, w, h) = (atlas.pixels, atlas.width, atlas.height);
    assert_eq!(h, 8);
    assert_eq!(pixels.len(), w as usize * h as usize * 4);
    // One 8x8 slot per printable ASCII character, ' ' through '~'.
    assert_eq!(w as usize, ATLAS_GLYPHS * GLYPH_PX);
    assert_eq!((b'~' - b' ' + 1) as usize, ATLAS_GLYPHS);
    for ch in ['0', '9', 'A', 'Z', ':'] {
        let slot = (ch as usize) - 32;
        let lit = (0..8usize).any(|y| {
            (0..8usize).any(|x| pixels[(y * w as usize + slot * 8 + x) * 4] == 255)
        });
        assert!(lit, "glyph for '{ch}' is empty");
    }
    let space_lit = (0..8usize).any(|y| (0..8usize).any(|x| pixels[(y * w as usize + x) * 4] != 0));
    assert!(!space_lit);
}

#[test]
fn atlas_matches_font8x8_bits() {
    let atlas = build_font_atlas_rgba();
    assert_eq!(atlas.width, ATLAS_WIDTH);
    assert_eq!(atlas.height, ATLAS_HEIGHT);
    let glyph = font8x8::BASIC_FONTS.get('A').unwrap();
    let slot = ('A' as usize) - 32;
    for y in 0..8usize {
        for x in 0..8usize {
            let expected = if (glyph[y] >> x) & 1 == 1 { 255 } else { 0 };
            let p = (y * ATLAS_WIDTH as usize + slot * 8 + x) * 4;
            assert_eq!(&atlas.pixels[p..p + 4], &[expected; 4]);
        }
    }
}

#[test]
fn quad_indices_form_two_triangles() {
    let mut idxs = vec![9u16];
    push_quad_indices(&mut idxs, 4);
    assert_eq!(idxs, vec![9, 4, 5, 6, 4, 6, 7]);
}

#[test]
fn normalize_text_length_counts_ellipses_thrice() {
    let input = "wait\u{2026} \u{2026}ok\u{e9}";
    let out = normalize_text(input);
    assert_eq!(out, "wait... ...ok?");
    assert_eq!(out.chars().count(), input.chars().count() + 2 * 2);
}

#[test]
fn normalize_text_keeps_printable_ascii() {
    let input = " !\"#AZaz09~{}|";
    assert_eq!(normalize_text(input), input);
}

#[test]
fn normalize_text_is_idempotent() {
    let once = normalize_text("\u{201C}tab\there\u{201D} \u{2014} \u{2026}\u{1F600}");
    assert_eq!(once, "\"tab?here\" - ...?");
    assert_eq!(normalize_text(&once), once);
}
