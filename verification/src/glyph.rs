//! Glyph data: cache keys, cached layout metrics, rasterization results and
//! per-glyph draw commands, together with the coverage-to-RGBA conversion.

use vstd::prelude::*;

verus! {

/// Horizontal advances accumulate while measuring or laying out text; the
/// running cursor saturates at this cap so that the arithmetic stays exact
/// far beyond any drawable coordinate range.
pub const ADVANCE_CAP: u64 = 0x10_0000_0000_0000;

/// Where a draw call anchors the text vertically: at the top-left of the
/// requested origin (compensating for the glyph offset convention by adding
/// the pixel size) or at the bottom-left (no correction).
#[derive(Debug, Copy, Clone, Eq, PartialEq, Ord, PartialOrd, Structural)]
pub enum DrawFrom {
    BottomLeft,
    TopLeft,
}

impl Default for DrawFrom {
    fn default() -> (r: Self)
        ensures
            r == DrawFrom::TopLeft,
    {
        DrawFrom::TopLeft
    }
}

/// The layout record cached once per (character, pixel size) pair: the atlas
/// slot holding the glyph image, the bitmap offsets, the horizontal advance
/// in whole pixels, and the bitmap dimensions.
#[derive(Default, Debug, Copy, Clone, PartialEq, Eq, Structural)]
pub struct CharacterInfo {
    pub id: u64,
    pub offset_x: i32,
    pub offset_y: i32,
    pub advance: u32,
    pub width: u32,
    pub height: u32,
}

/// What one rasterization yields: bitmap dimensions in whole pixels, the
/// offsets of the bitmap's left-most and bottom-most edges, the horizontal
/// advance in whole pixels, and the coverage bitmap (one byte per pixel,
/// row-major from the top-left corner).
#[derive(Debug, Clone)]
pub struct RasterResult {
    pub width: usize,
    pub height: usize,
    pub xmin: i32,
    pub ymin: i32,
    pub advance: u32,
    pub coverage: Vec<u8>,
}

/// The mathematical content of a [`RasterResult`].
#[verifier::ext_equal]
pub ghost struct RasterSpec {
    pub width: int,
    pub height: int,
    pub xmin: int,
    pub ymin: int,
    pub advance: int,
    pub coverage: Seq<u8>,
}

impl View for RasterResult {
    type V = RasterSpec;

    open spec fn view(&self) -> RasterSpec {
        RasterSpec {
            width: self.width as int,
            height: self.height as int,
            xmin: self.xmin as int,
            ymin: self.ymin as int,
            advance: self.advance as int,
            coverage: self.coverage@,
        }
    }
}

/// The rasterization of a character present in no loaded font: a zero-size
/// bitmap with zero advance.
pub open spec fn spec_empty_raster() -> RasterSpec {
    RasterSpec { width: 0, height: 0, xmin: 0, ymin: 0, advance: 0, coverage: Seq::empty() }
}

/// Builds the degenerate rasterization used for characters no font covers.
pub fn empty_raster() -> (r: RasterResult)
    ensures
        r@ == spec_empty_raster(),
        r.coverage@.len() == r.width * r.height,
{
    let r = RasterResult { width: 0, height: 0, xmin: 0, ymin: 0, advance: 0, coverage: Vec::new() };
    proof {
        assert(r@ =~= spec_empty_raster());
    }
    r
}

/// The cache key of one (character, pixel size) pair. Distinct pairs map to
/// distinct keys: the size occupies the low 16 bits and the character's
/// scalar value the bits above them.
pub open spec fn spec_glyph_key(c: char, size: u16) -> u64 {
    ((c as u64) * 0x1_0000 + (size as u64)) as u64
}

pub fn glyph_key(c: char, size: u16) -> (r: u64)
    ensures
        r == spec_glyph_key(c, size),
{
    (c as u64) * 0x1_0000 + (size as u64)
}

/// Distinct (character, size) pairs always get distinct cache keys.
pub proof fn lemma_glyph_key_injective(c1: char, s1: u16, c2: char, s2: u16)
    requires
        spec_glyph_key(c1, s1) == spec_glyph_key(c2, s2),
    ensures
        c1 == c2,
        s1 == s2,
{
    assert((c1 as u64) == (c2 as u64) && (s1 as u64) == (s2 as u64)) by (nonlinear_arith)
        requires
            (c1 as u64) * 0x1_0000 + (s1 as u64) == (c2 as u64) * 0x1_0000 + (s2 as u64),
            (s1 as u64) < 0x1_0000,
            (s2 as u64) < 0x1_0000,
    ;
}

/// Clamps a mathematical integer into the `u32` range.
pub open spec fn clamp_u32(x: int) -> u32 {
    if x > u32::MAX as int {
        u32::MAX
    } else if x < 0 {
        0u32
    } else {
        x as u32
    }
}

/// Clamps a bitmap dimension into the `u32` range.
pub fn clamp_dim(x: usize) -> (r: u32)
    ensures
        r == clamp_u32(x as int),
{
    if x > u32::MAX as usize {
        u32::MAX
    } else {
        x as u32
    }
}

/// The cache record built from one rasterization and a freshly assigned
/// atlas slot: offsets and advance are carried over and the bitmap
/// dimensions are clamped into `u32`.
pub open spec fn spec_entry_of(rs: RasterSpec, id: u64) -> CharacterInfo {
    CharacterInfo {
        id,
        offset_x: clamp_i32(rs.xmin),
        offset_y: clamp_i32(rs.ymin),
        advance: clamp_u32(rs.advance),
        width: clamp_u32(rs.width),
        height: clamp_u32(rs.height),
    }
}

/// Clamps a mathematical integer into the `i32` range.
pub open spec fn clamp_i32(x: int) -> i32 {
    if x > i32::MAX as int {
        i32::MAX
    } else if x < i32::MIN as int {
        i32::MIN
    } else {
        x as i32
    }
}

/// The four-channel image of a coverage bitmap: every pixel has saturated
/// color channels and carries its coverage in the alpha channel.
pub open spec fn spec_rgba(cov: Seq<u8>) -> Seq<u8>
    decreases cov.len(),
{
    if cov.len() == 0 {
        Seq::empty()
    } else {
        spec_rgba(cov.drop_last()) + seq![255u8, 255u8, 255u8, cov.last()]
    }
}

pub proof fn lemma_rgba_len(cov: Seq<u8>)
    ensures
        spec_rgba(cov).len() == 4 * cov.len(),
    decreases cov.len(),
{
    if cov.len() > 0 {
        lemma_rgba_len(cov.drop_last());
    }
}

/// Converts a one-byte-per-pixel coverage bitmap into a four-channel image:
/// saturated color channels, coverage in the alpha channel.
pub fn coverage_to_rgba(cov: &Vec<u8>) -> (r: Vec<u8>)
    ensures
        r@ == spec_rgba(cov@),
{
    let mut r: Vec<u8> = Vec::new();
    let mut j: usize = 0;
    while j < cov.len()
        invariant
            j <= cov.len(),
            r@ =~= spec_rgba(cov@.take(j as int)),
        decreases cov.len() - j,
    {
        let c = cov[j];
        r.push(255);
        r.push(255);
        r.push(255);
        r.push(c);
        proof {
            assert(cov@.take(j + 1 as int).drop_last() =~= cov@.take(j as int));
            assert(cov@.take(j + 1 as int).last() == cov@[j as int]);
        }
        j = j + 1;
    }
    proof {
        assert(cov@.take(cov@.len() as int) =~= cov@);
    }
    r
}

/// What one glyph of a laid-out text contributes to drawing: the atlas slot
/// to source, the offset of the glyph image relative to the requested text
/// origin, and the destination size in pixels.
#[derive(Debug, Copy, Clone, PartialEq, Eq, Structural)]
pub struct GlyphDraw {
    pub id: u64,
    pub dx: i64,
    pub dy: i64,
    pub width: u32,
    pub height: u32,
}

/// What measuring a text yields: the total advance width, the vertical span
/// between the lowest and highest glyph extents, and the highest upward
/// extent, which callers use to place a baseline.
#[derive(Debug, Copy, Clone, PartialEq, Eq, Structural)]
pub struct TextDimensions {
    pub width: u64,
    pub height: i64,
    pub offset_y: i64,
}

} // verus!
