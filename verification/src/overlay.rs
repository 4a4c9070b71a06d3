//! The integer side of the HUD overlay: text normalisation for the 8×8 bitmap font, the
//! font atlas bitmap, and the index pattern of a quad.
//!
//! The atlas is one horizontal strip of 8×8 glyphs, one per printable ASCII character from
//! `' '` to `'~'`, stored as RGBA8 rows: a set font bit is opaque white, every other pixel is
//! transparent black.

use font8x8::{UnicodeFonts, BASIC_FONTS};
use vstd::prelude::*;

use crate::text::{chars_of, push_char};

verus! {

/// Side of a font8x8 glyph, in pixels.
pub const GLYPH_PX: usize = 8;

/// Number of glyphs in the atlas (`' '` through `'~'`).
pub const ATLAS_GLYPHS: usize = 95;

/// Width of the atlas, in pixels.
pub const ATLAS_WIDTH: u32 = 760;

/// Height of the atlas, in pixels.
pub const ATLAS_HEIGHT: u32 = 8;

/// Number of pixels in the atlas.
pub const ATLAS_PIXELS: usize = 6080;

/// The 8×8 bitmap of `ch` in font8x8's basic set, one byte per row, bit `c` of a row
/// being column `c`; `None` for a character outside the set.
pub uninterp spec fn basic_glyph(ch: char) -> Option<Seq<u8>>;

/// `font8x8::BASIC_FONTS.get(ch)`: the glyph of `ch` in the basic set, which holds one
/// glyph for each character from U+0000 to U+007F and none for any other.
#[verifier::external_body]
fn basic_font_glyph(ch: char) -> (r: Option<[u8; 8]>)
    ensures
        match r {
            Some(rows) => basic_glyph(ch) == Some(rows@),
            None => basic_glyph(ch) is None,
        },
        r is Some <==> (ch as u32) < 128,
{
    BASIC_FONTS.get(ch)
}

/// The character of atlas slot `g`.
pub open spec fn atlas_char(g: int) -> char {
    ((32 + g) as u8) as char
}

/// Whether column `c` of row `y` of `ch`'s glyph is set.
pub open spec fn glyph_bit(ch: char, y: int, c: int) -> bool {
    ((basic_glyph(ch)->0[y] >> (c as u8)) & 1u8) == 1u8
}

/// The value of each channel of atlas pixel `p`, pixels being numbered row by row.
pub open spec fn atlas_pixel_value(p: int) -> u8 {
    let y = p / (ATLAS_WIDTH as int);
    let x = p % (ATLAS_WIDTH as int);
    if glyph_bit(atlas_char(x / 8), y, x % 8) {
        255
    } else {
        0
    }
}

/// Channel `k` of pixel `p` in RGBA8 data.
pub open spec fn channel(pixels: Seq<u8>, p: int, k: int) -> u8 {
    pixels[4 * p + k]
}

/// The RGBA8 font atlas.
pub struct FontAtlas {
    pub pixels: Vec<u8>,
    pub width: u32,
    pub height: u32,
}

/// Builds the RGBA8 pixels of the font atlas: glyph `g` (character `32 + g`) occupies
/// columns `8g` to `8g + 7`.
pub fn build_font_atlas_rgba() -> (r: FontAtlas)
    ensures
        r.width == ATLAS_WIDTH,
        r.height == ATLAS_HEIGHT,
        r.pixels@.len() == 4 * ATLAS_PIXELS,
        forall|p: int, k: int|
            0 <= p < ATLAS_PIXELS && 0 <= k < 4 ==> #[trigger] channel(r.pixels@, p, k)
                == atlas_pixel_value(p),
{
    let mut pixels: Vec<u8> = Vec::new();
    let mut p: usize = 0;
    while p < ATLAS_PIXELS
        invariant
            p <= ATLAS_PIXELS,
            pixels@.len() == 4 * p,
            forall|q: int, k: int|
                0 <= q < p && 0 <= k < 4 ==> #[trigger] channel(pixels@, q, k) == atlas_pixel_value(
                    q,
                ),
        decreases ATLAS_PIXELS - p,
    {
        let y = p / 760;
        let x = p % 760;
        let g = x / GLYPH_PX;
        let c = x % GLYPH_PX;
        let code: u8 = 32 + g as u8;
        let ch = code as char;
        let bits: u8 = match basic_font_glyph(ch) {
            Some(rows) => rows[y],
            None => 0,
        };
        let value: u8 = if (bits >> (c as u8)) & 1u8 == 1u8 {
            255
        } else {
            0
        };
        assert(value == atlas_pixel_value(p as int));
        let ghost before = pixels@;
        pixels.push(value);
        pixels.push(value);
        pixels.push(value);
        pixels.push(value);
        assert forall|q: int, k: int| 0 <= q < p + 1 && 0 <= k < 4 implies #[trigger] channel(
            pixels@,
            q,
            k,
        ) == atlas_pixel_value(q) by {
            if q < p {
                assert(channel(before, q, k) == atlas_pixel_value(q));
            }
        }
        p += 1;
    }
    FontAtlas { pixels, width: ATLAS_WIDTH, height: ATLAS_HEIGHT }
}

/// What `normalize_text` writes for one character: typographic quotes, dashes and the
/// ellipsis become their ASCII spelling, printable ASCII stays, anything else becomes `?`.
pub open spec fn normalized_char(c: char) -> Seq<char> {
    if c == '\u{2018}' || c == '\u{2019}' {
        seq!['\'']
    } else if c == '\u{201C}' || c == '\u{201D}' {
        seq!['"']
    } else if c == '\u{2013}' || c == '\u{2014}' || c == '\u{2212}' {
        seq!['-']
    } else if c == '\u{2026}' {
        seq!['.', '.', '.']
    } else if 32 <= (c as u32) < 127 {
        seq![c]
    } else {
        seq!['?']
    }
}

/// `s` with each character replaced by its normalised spelling.
pub open spec fn normalized(s: Seq<char>) -> Seq<char>
    decreases s.len(),
{
    if s.len() == 0 {
        Seq::empty()
    } else {
        normalized(s.drop_last()) + normalized_char(s.last())
    }
}

/// Map common Unicode typographic characters to ASCII equivalents.
///
/// Non-ASCII characters that cannot be mapped, and ASCII control characters, are replaced
/// with `'?'`.
///
/// The result is printable ASCII, one character per input character except three per
/// ellipsis, unchanged when the input already is printable ASCII, and normalising it again
/// gives it back.
pub fn normalize_text(input: &str) -> (r: String)
    ensures
        r@ == normalized(input@),
        all_printable_ascii(r@),
        r@.len() == input@.len() + 2 * ellipsis_count(input@),
        all_printable_ascii(input@) ==> r@ == input@,
        normalized(r@) == r@,
{
    let cs = chars_of(input);
    let mut out = String::new();
    let mut i: usize = 0;
    while i < cs.len()
        invariant
            cs@ == input@,
            i <= cs@.len(),
            out@ == normalized(cs@.take(i as int)),
        decreases cs@.len() - i,
    {
        let c = cs[i];
        let ghost before = out@;
        if c == '\u{2018}' || c == '\u{2019}' {
            push_char(&mut out, '\'');
        } else if c == '\u{201C}' || c == '\u{201D}' {
            push_char(&mut out, '"');
        } else if c == '\u{2013}' || c == '\u{2014}' || c == '\u{2212}' {
            push_char(&mut out, '-');
        } else if c == '\u{2026}' {
            push_char(&mut out, '.');
            push_char(&mut out, '.');
            push_char(&mut out, '.');
        } else if 32 <= (c as u32) && (c as u32) < 127 {
            push_char(&mut out, c);
        } else {
            push_char(&mut out, '?');
        }
        assert(out@ == before + normalized_char(c));
        assert(cs@.take(i + 1).drop_last() == cs@.take(i as int));
        i += 1;
    }
    assert(cs@.take(cs@.len() as int) == cs@);
    proof {
        normalized_is_printable_ascii(input@);
        normalized_len(input@);
        if all_printable_ascii(input@) {
            normalized_keeps_printable(input@);
        }
        normalize_idempotent(input@);
    }
    out
}

/// Normalised text only holds printable ASCII, which the bitmap font draws.
pub proof fn normalized_is_printable_ascii(s: Seq<char>)
    ensures
        forall|i: int| 0 <= i < normalized(s).len() ==> 32 <= (#[trigger] normalized(s)[i]) as u32 <= 126,
    decreases s.len(),
{
    if s.len() > 0 {
        normalized_is_printable_ascii(s.drop_last());
        let head = normalized(s.drop_last());
        let tail = normalized_char(s.last());
        assert forall|i: int| 0 <= i < normalized(s).len() implies 32 <= (#[trigger] normalized(s)[i]) as u32
            <= 126 by {
            if i >= head.len() {
                assert(normalized(s)[i] == tail[i - head.len()]);
            } else {
                assert(normalized(s)[i] == head[i]);
            }
        }
    }
}

/// How many ellipsis characters `s` holds.
pub open spec fn ellipsis_count(s: Seq<char>) -> nat
    decreases s.len(),
{
    if s.len() == 0 {
        0
    } else {
        ellipsis_count(s.drop_last()) + if s.last() == '\u{2026}' { 1nat } else { 0nat }
    }
}

/// Whether every character of `s` is printable ASCII (`' '` to `'~'`).
pub open spec fn all_printable_ascii(s: Seq<char>) -> bool {
    forall|i: int| 0 <= i < s.len() ==> 32 <= (#[trigger] s[i]) as u32 <= 126
}

/// Normalising keeps one character for each, but three for each ellipsis.
pub proof fn normalized_len(s: Seq<char>)
    ensures
        normalized(s).len() == s.len() + 2 * ellipsis_count(s),
    decreases s.len(),
{
    if s.len() > 0 {
        normalized_len(s.drop_last());
    }
}

/// Text that is already printable ASCII normalises to itself.
pub proof fn normalized_keeps_printable(s: Seq<char>)
    requires
        all_printable_ascii(s),
    ensures
        normalized(s) == s,
    decreases s.len(),
{
    if s.len() > 0 {
        let init = s.drop_last();
        assert(all_printable_ascii(init)) by {
            assert forall|i: int| 0 <= i < init.len() implies 32 <= (#[trigger] init[i]) as u32 <= 126 by {
                assert(init[i] == s[i]);
            }
        }
        normalized_keeps_printable(init);
        assert(32 <= s[s.len() - 1] as u32 <= 126);
        assert(s =~= init + seq![s.last()]);
    }
}

/// Normalising twice gives what normalising once gives.
pub proof fn normalize_idempotent(s: Seq<char>)
    ensures
        normalized(normalized(s)) == normalized(s),
{
    normalized_is_printable_ascii(s);
    normalized_keeps_printable(normalized(s));
}

/// The six indices of the two triangles of a quad whose corners are vertices `base` to
/// `base + 3` (top-left, top-right, bottom-right, bottom-left).
pub open spec fn quad_indices(base: int) -> Seq<u16> {
    seq![base as u16, (base + 1) as u16, (base + 2) as u16, base as u16, (base + 2) as u16, (base + 3) as u16]
}

/// Appends the two triangles of a quad whose corners are vertices `base` to `base + 3`.
pub fn push_quad_indices(idxs: &mut Vec<u16>, base: u16)
    requires
        base + 3 <= u16::MAX,
    ensures
        final(idxs)@ == old(idxs)@ + quad_indices(base as int),
{
    idxs.push(base);
    idxs.push(base + 1);
    idxs.push(base + 2);
    idxs.push(base);
    idxs.push(base + 2);
    idxs.push(base + 3);
}

} // verus!
