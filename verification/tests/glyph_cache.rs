use osd_text::fonts::Fonts;
use osd_text::glyph::{DrawFrom, RasterResult};

fn raster(advance: u32, width: usize, height: usize, xmin: i32, ymin: i32) -> RasterResult {
    RasterResult { width, height, xmin, ymin, advance, coverage: vec![0u8; width * height] }
}

#[test]
fn ensure_cached_twice_is_idempotent() {
    let mut fonts = Fonts::new();
    fonts.cache_glyph('x', 16);
    let e1 = fonts.glyph_info('x', 16).unwrap();
    let sprites_after_first = fonts.atlas().len();
    assert_eq!(sprites_after_first, 1);
    fonts.cache_glyph('x', 16);
    let e2 = fonts.glyph_info('x', 16).unwrap();
    assert_eq!(e1, e2);
    assert_eq!(fonts.atlas().len(), sprites_after_first);
}

#[test]
fn measure_ab_is_22_and_caching_again_rasterizes_nothing() {
    let mut fonts = Fonts::new();
    fonts.cache_glyph_raster('A', 20, raster(10, 0, 0, 0, 0));
    fonts.cache_glyph_raster('B', 20, raster(12, 0, 0, 0, 0));
    let d = fonts.measure_text("AB", 20);
    assert_eq!(d.width, 22);
    let sprites = fonts.atlas().len();
    fonts.cache_glyph('A', 20);
    fonts.cache_glyph('A', 20);
    assert_eq!(fonts.atlas().len(), sprites);
    assert_eq!(fonts.glyph_info('A', 20).unwrap().advance, 10);
}

#[test]
fn measure_width_is_sum_of_recorded_advances() {
    let mut fonts = Fonts::new();
    fonts.cache_glyph_raster('A', 20, raster(10, 2, 3, 0, -1));
    fonts.cache_glyph_raster('B', 20, raster(12, 1, 4, 0, 2));
    let a = fonts.glyph_info('A', 20).unwrap();
    let b = fonts.glyph_info('B', 20).unwrap();
    let d = fonts.measure_text("AB", 20);
    assert_eq!(d.width, (a.advance + b.advance) as u64);
}

#[test]
fn measure_tracks_vertical_extents() {
    let mut fonts = Fonts::new();
    // 'A': top extent 3 + (-1) = 2, bottom offset -1
    // 'B': top extent 4 + 2 = 6, bottom offset 2
    fonts.cache_glyph_raster('A', 20, raster(10, 2, 3, 0, -1));
    fonts.cache_glyph_raster('B', 20, raster(12, 1, 4, 0, 2));
    let d = fonts.measure_text("AB", 20);
    assert_eq!(d.offset_y, 6);
    assert_eq!(d.height, 6 - (-1));
}

#[test]
fn measure_empty_text_is_zero() {
    let mut fonts = Fonts::new();
    let d = fonts.measure_text("", 20);
    assert_eq!(d.width, 0);
    assert_eq!(d.height, 0);
    assert_eq!(d.offset_y, 0);
    assert_eq!(fonts.atlas().len(), 0);
}

#[test]
fn missing_char_measures_and_draws_as_zero() {
    let mut fonts = Fonts::new();
    let d = fonts.measure_text("xyz", 20);
    assert_eq!(d.width, 0);
    assert_eq!(d.height, 0);
    assert_eq!(d.offset_y, 0);
    let cmds = fonts.layout_text("xyz", 20, DrawFrom::BottomLeft);
    assert_eq!(cmds.len(), 3);
    for cmd in &cmds {
        assert_eq!(cmd.dx, 0);
        assert_eq!(cmd.dy, 0);
        assert_eq!(cmd.width, 0);
        assert_eq!(cmd.height, 0);
    }
}

#[test]
fn distinct_pairs_get_distinct_slots() {
    let mut fonts = Fonts::new();
    fonts.cache_glyph_raster('A', 20, raster(10, 0, 0, 0, 0));
    fonts.cache_glyph_raster('A', 24, raster(11, 0, 0, 0, 0));
    fonts.cache_glyph_raster('B', 20, raster(12, 0, 0, 0, 0));
    let a20 = fonts.glyph_info('A', 20).unwrap().id;
    let a24 = fonts.glyph_info('A', 24).unwrap().id;
    let b20 = fonts.glyph_info('B', 20).unwrap().id;
    assert_ne!(a20, a24);
    assert_ne!(a20, b20);
    assert_ne!(a24, b20);
}

#[test]
fn layout_follows_cursor_offsets_and_anchor() {
    let mut fonts = Fonts::new();
    fonts.cache_glyph_raster('A', 20, raster(10, 2, 3, 1, -2));
    fonts.cache_glyph_raster('B', 20, raster(12, 1, 4, 0, 1));
    let top = fonts.layout_text("AB", 20, DrawFrom::TopLeft);
    assert_eq!(top.len(), 2);
    assert_eq!(top[0].dx, 1);
    assert_eq!(top[0].dy, -3 - (-2) + 20);
    assert_eq!((top[0].width, top[0].height), (2, 3));
    assert_eq!(top[1].dx, 0 + 10);
    assert_eq!(top[1].dy, -4 - 1 + 20);
    let bottom = fonts.layout_text("AB", 20, DrawFrom::BottomLeft);
    assert_eq!(bottom[0].dy, -3 - (-2));
    assert_eq!(bottom[1].dy, -4 - 1);
    assert_eq!(bottom[1].dx, 10);
}

#[test]
fn cached_sprite_carries_coverage_in_alpha() {
    let mut fonts = Fonts::new();
    let r = RasterResult { width: 2, height: 1, xmin: 0, ymin: 0, advance: 3, coverage: vec![7, 9] };
    fonts.cache_glyph_raster('A', 20, r);
    let id = fonts.glyph_info('A', 20).unwrap().id;
    let sprite = fonts.atlas().get(id).unwrap();
    assert_eq!(sprite.id, id);
    assert_eq!(sprite.image.width, 2);
    assert_eq!(sprite.image.height, 1);
    assert_eq!(sprite.image.bytes, vec![255, 255, 255, 7, 255, 255, 255, 9]);
}

#[test]
fn draw_from_defaults_to_top_left() {
    assert_eq!(DrawFrom::default(), DrawFrom::TopLeft);
}
