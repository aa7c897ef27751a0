//! Tests that run the cache against real fontdue fonts, built byte by byte:
//! a minimal TrueType face with head, hhea, maxp, hmtx and a format-12 cmap,
//! no outlines (so rasterized glyphs are empty bitmaps with real advances).

use osd_text::fonts::Fonts;

fn push_u16(v: &mut Vec<u8>, x: u16) {
    v.extend_from_slice(&x.to_be_bytes());
}

fn push_i16(v: &mut Vec<u8>, x: i16) {
    v.extend_from_slice(&x.to_be_bytes());
}

fn push_u32(v: &mut Vec<u8>, x: u32) {
    v.extend_from_slice(&x.to_be_bytes());
}

// head: version, revision, checksum adjustment, magic, flags, unitsPerEm,
// created, modified, bbox, macStyle, lowestRecPPEM, directionHint,
// indexToLocFormat, glyphDataFormat — 54 bytes.
fn head_table(units_per_em: u16) -> Vec<u8> {
    let mut t = Vec::new();
    push_u32(&mut t, 0x0001_0000);
    push_u32(&mut t, 0);
    push_u32(&mut t, 0);
    push_u32(&mut t, 0x5F0F_3CF5);
    push_u16(&mut t, 0);
    push_u16(&mut t, units_per_em);
    t.extend_from_slice(&[0u8; 16]);
    for _ in 0..4 {
        push_i16(&mut t, 0);
    }
    push_u16(&mut t, 0);
    push_u16(&mut t, 8);
    push_i16(&mut t, 2);
    push_u16(&mut t, 0);
    push_u16(&mut t, 0);
    assert_eq!(t.len(), 54);
    t
}

// hhea: version, ascender, descender, lineGap, advanceWidthMax, minLSB,
// minRSB, xMaxExtent, caret slope/offset, 4 reserved, metricDataFormat,
// numberOfHMetrics — 36 bytes.
fn hhea_table(number_of_h_metrics: u16) -> Vec<u8> {
    let mut t = Vec::new();
    push_u32(&mut t, 0x0001_0000);
    push_i16(&mut t, 15);
    push_i16(&mut t, -5);
    push_i16(&mut t, 0);
    push_u16(&mut t, 0);
    push_i16(&mut t, 0);
    push_i16(&mut t, 0);
    push_i16(&mut t, 0);
    push_i16(&mut t, 1);
    push_i16(&mut t, 0);
    push_i16(&mut t, 0);
    for _ in 0..4 {
        push_i16(&mut t, 0);
    }
    push_i16(&mut t, 0);
    push_u16(&mut t, number_of_h_metrics);
    assert_eq!(t.len(), 36);
    t
}

fn maxp_table(num_glyphs: u16) -> Vec<u8> {
    let mut t = Vec::new();
    push_u32(&mut t, 0x0000_5000);
    push_u16(&mut t, num_glyphs);
    t
}

fn hmtx_table(advances: &[u16]) -> Vec<u8> {
    let mut t = Vec::new();
    for &advance in advances {
        push_u16(&mut t, advance);
        push_i16(&mut t, 0);
    }
    t
}

// cmap with one format-12 (segmented coverage) subtable; each mapping is
// (first char, last char, glyph index of the first char).
fn cmap_table(mappings: &[(u32, u32, u32)]) -> Vec<u8> {
    let mut t = Vec::new();
    push_u16(&mut t, 0); // version
    push_u16(&mut t, 1); // one encoding record
    push_u16(&mut t, 3); // platform: Windows
    push_u16(&mut t, 10); // encoding: full Unicode
    push_u32(&mut t, 12); // subtable offset
    push_u16(&mut t, 12); // format 12
    push_u16(&mut t, 0);
    push_u32(&mut t, 16 + 12 * mappings.len() as u32);
    push_u32(&mut t, 0); // language
    push_u32(&mut t, mappings.len() as u32);
    for &(start_char, end_char, start_glyph) in mappings {
        push_u32(&mut t, start_char);
        push_u32(&mut t, end_char);
        push_u32(&mut t, start_glyph);
    }
    t
}

/// A minimal TrueType face: glyph `i` advances by `advances[i]` font units
/// (glyph 0 is the undefined glyph), characters are mapped by `mappings`,
/// and there are no outlines.
fn build_font(units_per_em: u16, advances: &[u16], mappings: &[(u32, u32, u32)]) -> Vec<u8> {
    let tables: Vec<([u8; 4], Vec<u8>)> = vec![
        (*b"cmap", cmap_table(mappings)),
        (*b"head", head_table(units_per_em)),
        (*b"hhea", hhea_table(advances.len() as u16)),
        (*b"hmtx", hmtx_table(advances)),
        (*b"maxp", maxp_table(advances.len() as u16)),
    ];
    let mut font = Vec::new();
    push_u32(&mut font, 0x0001_0000); // sfnt version
    push_u16(&mut font, tables.len() as u16);
    push_u16(&mut font, 64); // searchRange
    push_u16(&mut font, 2); // entrySelector
    push_u16(&mut font, 16); // rangeShift
    let mut offset = 12 + 16 * tables.len() as u32;
    for (tag, data) in &tables {
        font.extend_from_slice(tag);
        push_u32(&mut font, 0); // checksum (not validated)
        push_u32(&mut font, offset);
        push_u32(&mut font, data.len() as u32);
        offset += data.len() as u32;
    }
    for (_, data) in &tables {
        font.extend_from_slice(data);
    }
    font
}

#[test]
fn crafted_font_loads() {
    let bytes = build_font(20, &[0, 10], &[(0x41, 0x41, 1)]);
    let mut fonts = Fonts::new();
    fonts.load_font_from_bytes(&bytes).unwrap();
    assert_eq!(fonts.fonts().len(), 1);
}

#[test]
fn fallback_prefers_first_loaded_font() {
    // Font 0 covers only 'A' (advance 10); font 1 covers 'A' and 'B'
    // (advances 30 and 12). 'A' must resolve through font 0, 'B' through
    // font 1.
    let font_0 = build_font(20, &[0, 10], &[(0x41, 0x41, 1)]);
    let font_1 = build_font(20, &[0, 30, 12], &[(0x41, 0x42, 1)]);
    let mut fonts = Fonts::new();
    fonts.load_font_from_bytes(&font_0).unwrap();
    fonts.load_font_from_bytes(&font_1).unwrap();

    assert_eq!(fonts.lookup_glyph_index('A'), (0, 1));
    assert_eq!(fonts.lookup_glyph_index('B'), (1, 2));
    assert!(fonts.contains('A'));
    assert!(fonts.contains('B'));
    assert!(!fonts.contains('C'));

    let d = fonts.measure_text("AB", 20);
    assert_eq!(d.width, 10 + 12);
    assert_eq!(fonts.glyph_info('A', 20).unwrap().advance, 10);
    assert_eq!(fonts.glyph_info('B', 20).unwrap().advance, 12);
}

#[test]
fn scenario_a10_b12_measures_22_and_rasterizes_once() {
    // One font with 'A' advancing 10 and 'B' advancing 12 at 20 units per
    // em: measuring "AB" at pixel size 20 gives width 22, and caching 'A'
    // again inserts nothing new.
    let bytes = build_font(20, &[0, 10, 12], &[(0x41, 0x42, 1)]);
    let mut fonts = Fonts::new();
    fonts.load_font_from_bytes(&bytes).unwrap();

    let d = fonts.measure_text("AB", 20);
    assert_eq!(d.width, 22);

    let sprites = fonts.atlas().len();
    let entry = fonts.glyph_info('A', 20).unwrap();
    fonts.cache_glyph('A', 20);
    fonts.cache_glyph('A', 20);
    assert_eq!(fonts.atlas().len(), sprites);
    assert_eq!(fonts.glyph_info('A', 20).unwrap(), entry);
}

#[test]
fn advances_scale_with_pixel_size() {
    // At 40 pixels for 20 units per em, every advance doubles.
    let bytes = build_font(20, &[0, 10, 12], &[(0x41, 0x42, 1)]);
    let mut fonts = Fonts::new();
    fonts.load_font_from_bytes(&bytes).unwrap();
    let d = fonts.measure_text("AB", 40);
    assert_eq!(d.width, 44);
}

#[test]
fn missing_char_in_real_font_degrades_to_zero() {
    let bytes = build_font(20, &[0, 10], &[(0x41, 0x41, 1)]);
    let mut fonts = Fonts::new();
    fonts.load_font_from_bytes(&bytes).unwrap();
    let d = fonts.measure_text("Z", 20);
    assert_eq!(d.width, 0);
    assert_eq!(d.height, 0);
    let entry = fonts.glyph_info('Z', 20).unwrap();
    assert_eq!(entry.advance, 0);
    assert_eq!(entry.width, 0);
    assert_eq!(entry.height, 0);
}
