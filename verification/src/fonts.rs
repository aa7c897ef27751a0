//! The glyph atlas cache: an ordered list of loaded fonts with fallback
//! lookup, a memo table from (character, pixel size) pairs to cached glyph
//! records, and the atlas of rasterized glyph images. Rasterization is done
//! by fontdue behind the trusted wrappers declared here; everything around
//! the calls — fallback order, caching, measurement and draw layout — is
//! verified.

use vstd::prelude::*;
use std::collections::HashMap;
use crate::atlas::{Atlas, Image, ImageModel, SpriteModel, atlas_wf};
use crate::glyph::{
    ADVANCE_CAP, CharacterInfo, DrawFrom, GlyphDraw, RasterResult, RasterSpec, TextDimensions,
    clamp_dim, clamp_u32, coverage_to_rgba, empty_raster, glyph_key,
    lemma_glyph_key_injective, spec_empty_raster, spec_entry_of, spec_glyph_key, spec_rgba,
    lemma_rgba_len,
};

verus! {

broadcast use vstd::std_specs::hash::group_hash_axioms;

#[verifier::external_type_specification]
#[verifier::external_body]
pub struct ExFont(fontdue::Font);

/// The glyph index a font's character table assigns to a character; 0 when
/// the font has no glyph for it. A fixed table of the font.
pub uninterp spec fn font_glyph_index(f: fontdue::Font, c: char) -> u16;

/// How many glyphs a font's glyph table holds; fixed when the font is
/// parsed.
pub uninterp spec fn font_glyph_count(f: fontdue::Font) -> u16;

/// The rasterization a font yields for a glyph index at a pixel size: a
/// function of the font, the index and the size alone.
pub uninterp spec fn font_raster(f: fontdue::Font, glyph: u16, size: u16) -> RasterSpec;

/// The font that fontdue parses from the given bytes at the given scale
/// hint, or nothing when it rejects them: a function of the bytes and the
/// scale alone.
pub uninterp spec fn font_parsed(bytes: Seq<u8>, scale: u16) -> Option<fontdue::Font>;

/// Relies on fontdue's `Font::lookup_glyph_index`: a pure lookup in the
/// font's character table that returns the glyph index for `c`, or 0 when
/// the font has no glyph for `c`. A nonzero index always lies inside the
/// glyph table: `Font::from_bytes` rejects any font whose character table
/// maps to an index at or beyond the table's length.
#[verifier::external_body]
fn lookup_in_font(f: &fontdue::Font, c: char) -> (r: u16)
    ensures
        r == font_glyph_index(*f, c),
        r == 0 || r < font_glyph_count(*f),
{
    f.lookup_glyph_index(c)
}

/// Relies on fontdue's `Font::rasterize_indexed`: the coverage bitmap and
/// layout metrics for one glyph at one pixel size, a function of the font,
/// the index and the size alone. fontdue documents the bitmap as one
/// coverage byte per pixel, `width * height` bytes starting at the top-left
/// corner. The advance is reported in subpixels; this wrapper drops the
/// fractional part. `rasterize_indexed` indexes the glyph table, so the
/// index must be in range.
#[verifier::external_body]
fn rasterize_in_font(f: &fontdue::Font, glyph: u16, size: u16) -> (r: RasterResult)
    requires
        glyph < font_glyph_count(*f),
    ensures
        r@ == font_raster(*f, glyph, size),
        r.coverage@.len() == r.width * r.height,
{
    let (m, bitmap) = f.rasterize_indexed(glyph, size.into());
    RasterResult {
        width: m.width,
        height: m.height,
        xmin: m.xmin,
        ymin: m.ymin,
        advance: m.advance_width as u32,
        coverage: bitmap,
    }
}

/// Relies on fontdue's `Font::from_bytes`: parses font bytes with the given
/// pixel-per-em scale hint, returning `Err` with fontdue's message when the
/// bytes are not a font it supports. The outcome depends on the bytes and
/// the settings alone.
#[verifier::external_body]
fn parse_font(bytes: &[u8], scale: u16) -> (r: Result<fontdue::Font, String>)
    ensures
        r is Ok <==> font_parsed(bytes@, scale) is Some,
        r matches Ok(f) ==> font_parsed(bytes@, scale) == Some(f),
{
    let settings = fontdue::FontSettings {
        collection_index: 0,
        scale: scale.into(),
        ..fontdue::FontSettings::default()
    };
    match fontdue::Font::from_bytes(bytes, settings) {
        Ok(f) => Ok(f),
        Err(e) => Err(e.to_string()),
    }
}

/// Font bytes that fontdue rejected; carries fontdue's description of the
/// underlying cause (malformed data, unsupported format, ...).
#[derive(Debug)]
pub struct FontLoadError {
    pub message: String,
}

/// The glyph atlas cache.
pub struct Fonts {
    fonts: Vec<fontdue::Font>,
    chars: HashMap<u64, CharacterInfo>,
    atlas: Atlas,
}

/// The mathematical content of the cache: the loaded fonts in fallback
/// order, the memo table keyed by [`spec_glyph_key`], and the atlas
/// contents.
#[verifier::ext_equal]
pub ghost struct FontsModel {
    pub fonts: Seq<fontdue::Font>,
    pub chars: Map<u64, CharacterInfo>,
    pub atlas: Seq<SpriteModel>,
}

impl View for Fonts {
    type V = FontsModel;

    closed spec fn view(&self) -> FontsModel {
        FontsModel { fonts: self.fonts@, chars: self.chars@, atlas: self.atlas@ }
    }
}

/// A (character, size) pair has a cached record.
pub open spec fn spec_has(m: FontsModel, c: char, size: u16) -> bool {
    m.chars.contains_key(spec_glyph_key(c, size))
}

/// The cached record of a (character, size) pair.
pub open spec fn spec_entry(m: FontsModel, c: char, size: u16) -> CharacterInfo {
    m.chars[spec_glyph_key(c, size)]
}

/// The cache invariant: the atlas numbers its sprites in order, every
/// cached record points at an existing sprite whose image dimensions match
/// the record (clamped into `u32`), and no two records share a sprite.
pub open spec fn model_wf(m: FontsModel) -> bool {
    &&& atlas_wf(m.atlas)
    &&& forall|k: u64|
        #[trigger] m.chars.contains_key(k) ==> m.chars[k].id < m.atlas.len()
            && m.chars[k].width == clamp_u32(m.atlas[m.chars[k].id as int].image.width)
            && m.chars[k].height == clamp_u32(m.atlas[m.chars[k].id as int].image.height)
    &&& forall|k1: u64, k2: u64|
        m.chars.contains_key(k1) && m.chars.contains_key(k2) && k1 != k2
            ==> #[trigger] m.chars[k1].id != #[trigger] m.chars[k2].id
}

impl Fonts {
    pub open spec fn wf(&self) -> bool {
        model_wf(self@)
    }

    /// An empty cache: no fonts, no cached glyphs, an empty atlas.
    pub fn new() -> (r: Self)
        ensures
            r.wf(),
            r@.fonts == Seq::<fontdue::Font>::empty(),
            r@.chars == Map::<u64, CharacterInfo>::empty(),
            r@.atlas == Seq::<SpriteModel>::empty(),
    {
        Fonts { fonts: Vec::new(), chars: HashMap::new(), atlas: Atlas::new() }
    }

    /// The list of loaded fonts, in the order they were loaded, which is
    /// also the fallback order of glyph lookups.
    pub fn fonts(&self) -> (r: &Vec<fontdue::Font>)
        ensures
            r@ == self@.fonts,
    {
        &self.fonts
    }

    /// The atlas of cached glyph images, for the renderer to upload.
    pub fn atlas(&self) -> (r: &Atlas)
        ensures
            r@ == self@.atlas,
    {
        &self.atlas
    }

    /// The cached record of a (character, size) pair, if one exists.
    pub fn glyph_info(&self, c: char, size: u16) -> (r: Option<CharacterInfo>)
        ensures
            match r {
                Some(e) => spec_has(self@, c, size) && e == spec_entry(self@, c, size),
                None => !spec_has(self@, c, size),
            },
    {
        let key = glyph_key(c, size);
        match self.chars.get(&key) {
            Some(e) => Some(*e),
            None => None,
        }
    }

    /// Loads a font from bytes already in memory, optimized for the given
    /// pixel-per-em scale. Loading succeeds exactly when fontdue parses the
    /// bytes; on success the parsed font is appended to the fallback list
    /// (last, so lowest priority), and on failure the cache is completely
    /// unchanged. Cached glyphs and the atlas are untouched either way.
    pub fn load_font_from_bytes_with_scale(&mut self, bytes: &[u8], scale: u16) -> (r: Result<
        (),
        FontLoadError,
    >)
        requires
            old(self).wf(),
        ensures
            final(self).wf(),
            final(self)@.chars == old(self)@.chars,
            final(self)@.atlas == old(self)@.atlas,
            r is Ok <==> font_parsed(bytes@, scale) is Some,
            match r {
                Ok(()) => font_parsed(bytes@, scale) matches Some(f) && final(self)@.fonts == old(
                    self,
                )@.fonts.push(f),
                Err(_) => final(self)@ == old(self)@,
            },
    {
        match parse_font(bytes, scale) {
            Ok(f) => {
                self.fonts.push(f);
                proof {
                    assert(self@.chars == old(self)@.chars);
                    assert(self@.atlas == old(self)@.atlas);
                }
                Ok(())
            },
            Err(message) => {
                proof {
                    assert(self@ =~= old(self)@);
                }
                Err(FontLoadError { message })
            },
        }
    }

    /// Loads a font from bytes with the default scale hint of 100 pixels
    /// per em: exactly [`Self::load_font_from_bytes_with_scale`] at 100.
    pub fn load_font_from_bytes(&mut self, bytes: &[u8]) -> (r: Result<(), FontLoadError>)
        requires
            old(self).wf(),
        ensures
            final(self).wf(),
            final(self)@.chars == old(self)@.chars,
            final(self)@.atlas == old(self)@.atlas,
            r is Ok <==> font_parsed(bytes@, 100) is Some,
            match r {
                Ok(()) => font_parsed(bytes@, 100) matches Some(f) && final(self)@.fonts == old(
                    self,
                )@.fonts.push(f),
                Err(_) => final(self)@ == old(self)@,
            },
    {
        self.load_font_from_bytes_with_scale(bytes, 100)
    }
}

/// The position of the first font in fallback order that has a glyph for
/// `c`, or -1 when no loaded font does.
pub open spec fn first_font_with(fonts: Seq<fontdue::Font>, c: char) -> int
    decreases fonts.len(),
{
    if fonts.len() == 0 {
        -1
    } else if font_glyph_index(fonts[0], c) != 0 {
        0
    } else {
        let rest = first_font_with(fonts.drop_first(), c);
        if rest < 0 {
            -1
        } else {
            rest + 1
        }
    }
}

/// Fallback order: the first loaded font that has a glyph wins. A font at
/// position `i` resolves `c` exactly when it has a glyph for `c` and every
/// font loaded before it lacks one; and no font resolves `c` exactly when
/// every loaded font lacks a glyph for it.
pub proof fn lemma_first_font_with(fonts: Seq<fontdue::Font>, c: char)
    ensures
        first_font_with(fonts, c) == -1 <==> (forall|j: int|
            0 <= j < fonts.len() ==> font_glyph_index(#[trigger] fonts[j], c) == 0),
        first_font_with(fonts, c) != -1 ==> {
            let i = first_font_with(fonts, c);
            &&& 0 <= i < fonts.len()
            &&& font_glyph_index(fonts[i], c) != 0
            &&& forall|j: int| 0 <= j < i ==> font_glyph_index(#[trigger] fonts[j], c) == 0
        },
    decreases fonts.len(),
{
    if fonts.len() > 0 && font_glyph_index(fonts[0], c) == 0 {
        let rest = fonts.drop_first();
        lemma_first_font_with(rest, c);
        if first_font_with(rest, c) == -1 {
            assert forall|j: int|
                0 <= j < fonts.len() implies font_glyph_index(#[trigger] fonts[j], c) == 0 by {
                if j >= 1 {
                    assert(fonts[j] == rest[j - 1]);
                }
            }
        } else {
            let i = first_font_with(fonts, c);
            assert(fonts[i] == rest[i - 1]);
            assert forall|j: int| 0 <= j < i implies font_glyph_index(#[trigger] fonts[j], c) == 0 by {
                if j >= 1 {
                    assert(fonts[j] == rest[j - 1]);
                }
            }
        }
        if forall|j: int| 0 <= j < fonts.len() ==> font_glyph_index(#[trigger] fonts[j], c) == 0 {
            assert forall|j: int|
                0 <= j < rest.len() implies font_glyph_index(#[trigger] rest[j], c) == 0 by {
                assert(rest[j] == fonts[j + 1]);
            }
        }
    }
}

/// The rasterization the cache resolves a (character, size) pair to: the
/// first font in fallback order that has a glyph for the character
/// rasterizes it, and a character no font covers gets the empty
/// rasterization.
pub open spec fn resolved_raster(fonts: Seq<fontdue::Font>, c: char, size: u16) -> RasterSpec {
    let i = first_font_with(fonts, c);
    if i >= 0 {
        font_raster(fonts[i], font_glyph_index(fonts[i], c), size)
    } else {
        spec_empty_raster()
    }
}

/// The cache after a record built from `rs` is inserted for (c, size): the
/// image (color saturated, coverage in the alpha channel) is appended to
/// the atlas under the next free slot, and the memo table gains the record
/// for the pair's key.
pub open spec fn inserts_glyph(
    pre: FontsModel,
    post: FontsModel,
    c: char,
    size: u16,
    rs: RasterSpec,
) -> bool {
    let id = pre.atlas.len() as u64;
    &&& post.fonts == pre.fonts
    &&& post.chars == pre.chars.insert(spec_glyph_key(c, size), spec_entry_of(rs, id))
    &&& post.atlas == pre.atlas.push(
        SpriteModel {
            id,
            image: ImageModel { width: rs.width, height: rs.height, bytes: spec_rgba(rs.coverage) },
        },
    )
}

/// What caching one (character, size) pair does: nothing on a hit; on a
/// miss, exactly one insertion of the rasterization the fallback order
/// resolves the pair to.
pub open spec fn cache_glyph_post(pre: FontsModel, post: FontsModel, c: char, size: u16) -> bool {
    if spec_has(pre, c, size) {
        post == pre
    } else {
        inserts_glyph(pre, post, c, size, resolved_raster(pre.fonts, c, size))
    }
}

impl Fonts {
    /// Looks the character up in every loaded font, in load order, until
    /// one has a glyph for it; returns that font's position and the glyph
    /// index, or (0, 0) when no loaded font covers the character.
    pub fn lookup_glyph_index(&self, c: char) -> (r: (usize, u16))
        ensures
            ({
                let i = first_font_with(self@.fonts, c);
                if i >= 0 {
                    r.0 == i && r.1 == font_glyph_index(self@.fonts[i], c) && r.1 != 0 && r.1
                        < font_glyph_count(self@.fonts[i])
                } else {
                    r.0 == 0 && r.1 == 0
                }
            }),
    {
        let n = self.fonts.len();
        let mut j: usize = 0;
        while j < n
            invariant
                n == self@.fonts.len(),
                j <= n,
                forall|k: int| 0 <= k < j ==> font_glyph_index(#[trigger] self@.fonts[k], c) == 0,
            decreases n - j,
        {
            let idx = lookup_in_font(&self.fonts[j], c);
            if idx != 0 {
                proof {
                    lemma_first_font_with(self@.fonts, c);
                    let i = first_font_with(self@.fonts, c);
                    assert(i != -1);
                    if i < j {
                        assert(font_glyph_index(self@.fonts[i], c) == 0);
                    }
                    assert(i == j);
                }
                return (j, idx);
            }
            j = j + 1;
        }
        proof {
            lemma_first_font_with(self@.fonts, c);
        }
        (0, 0)
    }

    /// Whether any loaded font has a glyph for the character.
    pub fn contains(&self, c: char) -> (r: bool)
        ensures
            r == (first_font_with(self@.fonts, c) >= 0),
    {
        self.lookup_glyph_index(c).1 != 0
    }

    /// Rasterizes a character at a pixel size using whichever font the
    /// fallback order resolves it to; a character no font covers yields the
    /// empty rasterization.
    pub fn rasterize(&self, c: char, size: u16) -> (r: RasterResult)
        ensures
            r@ == resolved_raster(self@.fonts, c, size),
            r.coverage@.len() == r.width * r.height,
    {
        let (font_idx, glyph_idx) = self.lookup_glyph_index(c);
        proof {
            lemma_first_font_with(self@.fonts, c);
        }
        if glyph_idx != 0 {
            rasterize_in_font(&self.fonts[font_idx], glyph_idx, size)
        } else {
            empty_raster()
        }
    }

    /// Inserts the cached record for a (character, size) pair from an
    /// already obtained rasterization; a no-op when the pair is already
    /// cached. The coverage bitmap must hold one byte per pixel.
    pub fn cache_glyph_raster(&mut self, c: char, size: u16, raster: RasterResult)
        requires
            old(self).wf(),
            raster.coverage@.len() == raster.width * raster.height,
        ensures
            final(self).wf(),
            spec_has(final(self)@, c, size),
            if spec_has(old(self)@, c, size) {
                final(self)@ == old(self)@
            } else {
                inserts_glyph(old(self)@, final(self)@, c, size, raster@)
            },
    {
        let key = glyph_key(c, size);
        if self.chars.contains_key(&key) {
            return;
        }
        let ghost pre = self@;
        let image = Image {
            width: raster.width,
            height: raster.height,
            bytes: coverage_to_rgba(&raster.coverage),
        };
        proof {
            lemma_rgba_len(raster.coverage@);
            assert(image@.bytes.len() == 4 * image@.width * image@.height) by (nonlinear_arith)
                requires
                    image@.bytes.len() == 4 * raster.coverage@.len(),
                    raster.coverage@.len() == raster.width * raster.height,
                    image@.width == raster.width as int,
                    image@.height == raster.height as int,
            ;
        }
        let id = self.atlas.add_sprite(image);
        let entry = CharacterInfo {
            id,
            offset_x: raster.xmin,
            offset_y: raster.ymin,
            advance: raster.advance,
            width: clamp_dim(raster.width),
            height: clamp_dim(raster.height),
        };
        self.chars.insert(key, entry);
        proof {
            assert(entry == spec_entry_of(raster@, id));
            assert(self@.chars == pre.chars.insert(spec_glyph_key(c, size), entry));
            assert(model_wf(self@)) by {
                assert(atlas_wf(self@.atlas));
                assert(forall|k: u64| #[trigger]
                    self@.chars.contains_key(k) && k != key ==> pre.chars.contains_key(k)
                        && self@.chars[k] == pre.chars[k]);
                assert(forall|k: u64| #[trigger]
                    self@.chars.contains_key(k) ==> self@.chars[k].id < self@.atlas.len()
                        && self@.chars[k].width == clamp_u32(
                        self@.atlas[self@.chars[k].id as int].image.width,
                    ) && self@.chars[k].height == clamp_u32(
                        self@.atlas[self@.chars[k].id as int].image.height,
                    ));
            }
        }
    }

    /// Ensures a (character, size) pair is cached: on the first request the
    /// character is resolved through the fallback order, rasterized once,
    /// its image stored in the atlas under a fresh slot, and the record
    /// memoized; later requests change nothing.
    pub fn cache_glyph(&mut self, c: char, size: u16)
        requires
            old(self).wf(),
        ensures
            final(self).wf(),
            spec_has(final(self)@, c, size),
            cache_glyph_post(old(self)@, final(self)@, c, size),
    {
        let key = glyph_key(c, size);
        if self.chars.contains_key(&key) {
            return;
        }
        let raster = self.rasterize(c, size);
        self.cache_glyph_raster(c, size, raster);
    }
}

/// Saturates the running advance cursor at [`ADVANCE_CAP`].
pub open spec fn sat_cap(x: int) -> int {
    if x > ADVANCE_CAP as int {
        ADVANCE_CAP as int
    } else {
        x
    }
}

/// The advance cursor after the whole text: the sum of the cached advances
/// of its characters in order, saturated at [`ADVANCE_CAP`].
pub open spec fn spec_width_upto(m: FontsModel, text: Seq<char>, size: u16) -> int
    decreases text.len(),
{
    if text.len() == 0 {
        0
    } else {
        sat_cap(
            spec_width_upto(m, text.drop_last(), size) + spec_entry(
                m,
                text.last(),
                size,
            ).advance,
        )
    }
}

/// The least vertical bitmap offset among the text's characters;
/// `i32::MAX` for empty text.
pub open spec fn spec_min_offset(m: FontsModel, text: Seq<char>, size: u16) -> int
    decreases text.len(),
{
    if text.len() == 0 {
        i32::MAX as int
    } else {
        let rest = spec_min_offset(m, text.drop_last(), size);
        let y = spec_entry(m, text.last(), size).offset_y as int;
        if y < rest {
            y
        } else {
            rest
        }
    }
}

/// The upward extent of one cached glyph: bitmap height plus vertical
/// offset.
pub open spec fn glyph_top(e: CharacterInfo) -> int {
    e.height + e.offset_y
}

/// The greatest upward extent among the text's characters; `i64::MIN` for
/// empty text.
pub open spec fn spec_max_top(m: FontsModel, text: Seq<char>, size: u16) -> int
    decreases text.len(),
{
    if text.len() == 0 {
        i64::MIN as int
    } else {
        let rest = spec_max_top(m, text.drop_last(), size);
        let t = glyph_top(spec_entry(m, text.last(), size));
        if t > rest {
            t
        } else {
            rest
        }
    }
}

/// What measuring a text returns, over the cached records: total advance
/// width, the span from the lowest offset to the highest extent, and the
/// highest extent itself; all zero for empty text.
pub open spec fn spec_measure(m: FontsModel, text: Seq<char>, size: u16) -> TextDimensions {
    if text.len() == 0 {
        TextDimensions { width: 0, height: 0, offset_y: 0 }
    } else {
        TextDimensions {
            width: spec_width_upto(m, text, size) as u64,
            height: (spec_max_top(m, text, size) - spec_min_offset(m, text, size)) as i64,
            offset_y: spec_max_top(m, text, size) as i64,
        }
    }
}

/// The draw command of the text's `i`-th glyph: sourced from the glyph's
/// atlas slot, placed at the running cursor plus the glyph's horizontal
/// offset, lifted by the glyph's height and vertical offset, and — when
/// anchoring from the top left — lowered by the pixel size.
pub open spec fn spec_glyph_draw(
    m: FontsModel,
    text: Seq<char>,
    size: u16,
    draw: DrawFrom,
    i: int,
) -> GlyphDraw {
    let e = spec_entry(m, text[i], size);
    GlyphDraw {
        id: e.id,
        dx: (e.offset_x + spec_width_upto(m, text.take(i), size)) as i64,
        dy: (0 - (e.height as int) - (e.offset_y as int) + if draw == DrawFrom::TopLeft {
            size as int
        } else {
            0
        }) as i64,
        width: e.width,
        height: e.height,
    }
}

/// Measurements depend only on the cached records of the text's
/// characters: two cache states whose records agree on them measure the
/// text identically.
pub proof fn lemma_measure_agree(m1: FontsModel, m2: FontsModel, text: Seq<char>, size: u16)
    requires
        forall|i: int|
            0 <= i < text.len() ==> spec_entry(m1, #[trigger] text[i], size) == spec_entry(
                m2,
                text[i],
                size,
            ),
    ensures
        spec_width_upto(m1, text, size) == spec_width_upto(m2, text, size),
        spec_min_offset(m1, text, size) == spec_min_offset(m2, text, size),
        spec_max_top(m1, text, size) == spec_max_top(m2, text, size),
    decreases text.len(),
{
    if text.len() > 0 {
        assert(forall|i: int|
            0 <= i < text.len() - 1 ==> #[trigger] text.drop_last()[i] == text[i]);
        lemma_measure_agree(m1, m2, text.drop_last(), size);
    }
}

/// Range bounds of the measurement folds, from the types of the cached
/// record fields.
pub proof fn lemma_measure_bounds(m: FontsModel, text: Seq<char>, size: u16)
    ensures
        0 <= spec_width_upto(m, text, size) <= ADVANCE_CAP as int,
        i32::MIN as int <= spec_min_offset(m, text, size) <= i32::MAX as int,
        spec_max_top(m, text, size) <= u32::MAX as int + i32::MAX as int,
        i64::MIN as int <= spec_max_top(m, text, size),
        text.len() > 0 ==> i32::MIN as int <= spec_max_top(m, text, size),
    decreases text.len(),
{
    if text.len() > 0 {
        lemma_measure_bounds(m, text.drop_last(), size);
    }
}

impl Fonts {
    /// Measures a text at a pixel size, caching every character of it
    /// first. The width is the sum of the characters' advances (saturated
    /// at [`ADVANCE_CAP`]); the height spans from the lowest bitmap offset
    /// to the highest bitmap extent; `offset_y` is the highest extent,
    /// used to place a baseline. A text whose characters are all cached
    /// already leaves the cache untouched.
    pub fn measure_text(&mut self, text: &str, size: u16) -> (r: TextDimensions)
        requires
            old(self).wf(),
        ensures
            final(self).wf(),
            final(self)@.fonts == old(self)@.fonts,
            forall|k: u64| #[trigger]
                old(self)@.chars.contains_key(k) ==> final(self)@.chars.contains_key(k) && final(self)@.chars[k] == old(self)@.chars[k],
            forall|i: int|
                0 <= i < text@.len() ==> spec_has(final(self)@, #[trigger] text@[i], size),
            forall|k: u64| #[trigger]
                final(self)@.chars.contains_key(k) ==> old(self)@.chars.contains_key(k)
                    || (exists|i: int|
                    0 <= i < text@.len() && k == #[trigger] spec_glyph_key(text@[i], size)),
            forall|i: int|
                0 <= i < text@.len() && !spec_has(old(self)@, #[trigger] text@[i], size)
                    ==> (exists|id: u64|
                    spec_entry(final(self)@, text@[i], size) == #[trigger] spec_entry_of(
                        resolved_raster(old(self)@.fonts, text@[i], size),
                        id,
                    )),
            final(self)@.atlas.len() >= old(self)@.atlas.len(),
            final(self)@.atlas.subrange(0, old(self)@.atlas.len() as int) == old(self)@.atlas,
            (forall|i: int| 0 <= i < text@.len() ==> spec_has(old(self)@, #[trigger] text@[i], size))
                ==> final(self)@ == old(self)@,
            r == spec_measure(final(self)@, text@, size),
    {
        let n = text.unicode_len();
        let mut i: usize = 0;
        let mut width: u64 = 0;
        let mut min_y: i32 = i32::MAX;
        let mut max_top: i64 = i64::MIN;
        while i < n
            invariant
                self.wf(),
                n == text@.len(),
                i <= n,
                self@.fonts == old(self)@.fonts,
                forall|k: u64| #[trigger]
                    old(self)@.chars.contains_key(k) ==> self@.chars.contains_key(k)
                        && self@.chars[k] == old(self)@.chars[k],
                forall|j: int| 0 <= j < i ==> spec_has(self@, #[trigger] text@[j], size),
                forall|k: u64| #[trigger]
                    self@.chars.contains_key(k) ==> old(self)@.chars.contains_key(k) || (exists|
                        j: int,
                    |
                        0 <= j < i && k == #[trigger] spec_glyph_key(text@[j], size)),
                forall|j: int|
                    0 <= j < i && !spec_has(old(self)@, #[trigger] text@[j], size) ==> (exists|
                        id: u64,
                    |
                        spec_entry(self@, text@[j], size) == #[trigger] spec_entry_of(
                            resolved_raster(old(self)@.fonts, text@[j], size),
                            id,
                        )),
                self@.atlas.len() >= old(self)@.atlas.len(),
                self@.atlas.subrange(0, old(self)@.atlas.len() as int) == old(self)@.atlas,
                (forall|j: int|
                    0 <= j < n ==> spec_has(old(self)@, #[trigger] text@[j], size)) ==> self@
                    == old(self)@,
                width <= ADVANCE_CAP,
                width == spec_width_upto(self@, text@.take(i as int), size),
                min_y as int == spec_min_offset(self@, text@.take(i as int), size),
                max_top as int == spec_max_top(self@, text@.take(i as int), size),
            decreases n - i,
        {
            let c = text.get_char(i);
            let ghost pre = self@;
            self.cache_glyph(c, size);
            proof {
                assert(forall|j: int|
                    0 <= j < i ==> spec_entry(self@, #[trigger] text@[j], size) == spec_entry(
                        pre,
                        text@[j],
                        size,
                    ));
                lemma_measure_agree(pre, self@, text@.take(i as int), size);
                assert forall|k: u64| #[trigger]
                    self@.chars.contains_key(k) implies old(self)@.chars.contains_key(k) || (
                exists|j: int| 0 <= j < i + 1 && k == #[trigger] spec_glyph_key(text@[j], size)) by {
                    if !pre.chars.contains_key(k) {
                        assert(k == spec_glyph_key(text@[i as int], size));
                    }
                }
                assert(self@.atlas.subrange(0, old(self)@.atlas.len() as int) =~= old(self)@.atlas);
                assert forall|j: int|
                    0 <= j < i + 1 && !spec_has(old(self)@, #[trigger] text@[j], size) implies (
                exists|id: u64|
                    spec_entry(self@, text@[j], size) == #[trigger] spec_entry_of(
                        resolved_raster(old(self)@.fonts, text@[j], size),
                        id,
                    )) by {
                    if j < i {
                        let id0 = choose|id: u64|
                            spec_entry(pre, text@[j], size) == #[trigger] spec_entry_of(
                                resolved_raster(old(self)@.fonts, text@[j], size),
                                id,
                            );
                        assert(spec_entry(self@, text@[j], size) == spec_entry_of(
                            resolved_raster(old(self)@.fonts, text@[j], size),
                            id0,
                        ));
                    } else if !spec_has(pre, text@[j], size) {
                        assert(spec_entry(self@, text@[j], size) == spec_entry_of(
                            resolved_raster(old(self)@.fonts, text@[j], size),
                            pre.atlas.len() as u64,
                        ));
                    } else {
                        let k = spec_glyph_key(text@[j], size);
                        let j2 = choose|j2: int|
                            0 <= j2 < i && k == #[trigger] spec_glyph_key(text@[j2], size);
                        lemma_glyph_key_injective(text@[j2], size, text@[j], size);
                        let id0 = choose|id: u64|
                            spec_entry(pre, text@[j2], size) == #[trigger] spec_entry_of(
                                resolved_raster(old(self)@.fonts, text@[j2], size),
                                id,
                            );
                        assert(spec_entry(self@, text@[j], size) == spec_entry_of(
                            resolved_raster(old(self)@.fonts, text@[j], size),
                            id0,
                        ));
                    }
                }
            }
            let e = match self.glyph_info(c, size) {
                Some(e) => e,
                None => vstd::pervasive::unreached(),
            };
            let adv = e.advance as u64;
            width = if width <= ADVANCE_CAP - adv {
                width + adv
            } else {
                ADVANCE_CAP
            };
            if e.offset_y < min_y {
                min_y = e.offset_y;
            }
            let top = e.height as i64 + e.offset_y as i64;
            if top > max_top {
                max_top = top;
            }
            proof {
                assert(text@.take(i + 1 as int).drop_last() =~= text@.take(i as int));
                assert(text@.take(i + 1 as int).last() == text@[i as int]);
            }
            i = i + 1;
        }
        proof {
            assert(text@.take(n as int) =~= text@);
            lemma_measure_bounds(self@, text@, size);
        }
        if n == 0 {
            TextDimensions { width: 0, height: 0, offset_y: 0 }
        } else {
            TextDimensions { width, height: max_top - min_y as i64, offset_y: max_top }
        }
    }

    /// Lays a text out for drawing at a pixel size, caching every
    /// character of it first: one draw command per character, each placed
    /// relative to the requested text origin, with the cursor advanced by
    /// each glyph's advance in turn. Anchoring from the top left lowers
    /// every glyph by the pixel size; anchoring from the bottom left does
    /// not. A text whose characters are all cached already leaves the
    /// cache untouched.
    pub fn layout_text(&mut self, text: &str, size: u16, draw: DrawFrom) -> (r: Vec<GlyphDraw>)
        requires
            old(self).wf(),
        ensures
            final(self).wf(),
            final(self)@.fonts == old(self)@.fonts,
            forall|k: u64| #[trigger]
                old(self)@.chars.contains_key(k) ==> final(self)@.chars.contains_key(k) && final(self)@.chars[k] == old(self)@.chars[k],
            forall|i: int|
                0 <= i < text@.len() ==> spec_has(final(self)@, #[trigger] text@[i], size),
            forall|k: u64| #[trigger]
                final(self)@.chars.contains_key(k) ==> old(self)@.chars.contains_key(k)
                    || (exists|i: int|
                    0 <= i < text@.len() && k == #[trigger] spec_glyph_key(text@[i], size)),
            forall|i: int|
                0 <= i < text@.len() && !spec_has(old(self)@, #[trigger] text@[i], size)
                    ==> (exists|id: u64|
                    spec_entry(final(self)@, text@[i], size) == #[trigger] spec_entry_of(
                        resolved_raster(old(self)@.fonts, text@[i], size),
                        id,
                    )),
            final(self)@.atlas.len() >= old(self)@.atlas.len(),
            final(self)@.atlas.subrange(0, old(self)@.atlas.len() as int) == old(self)@.atlas,
            (forall|i: int| 0 <= i < text@.len() ==> spec_has(old(self)@, #[trigger] text@[i], size))
                ==> final(self)@ == old(self)@,
            r@.len() == text@.len(),
            forall|i: int|
                0 <= i < text@.len() ==> r@[i] == spec_glyph_draw(
                    final(self)@,
                    text@,
                    size,
                    draw,
                    i,
                ),
    {
        let n = text.unicode_len();
        let mut i: usize = 0;
        let mut width: u64 = 0;
        let mut cmds: Vec<GlyphDraw> = Vec::new();
        while i < n
            invariant
                self.wf(),
                n == text@.len(),
                i <= n,
                self@.fonts == old(self)@.fonts,
                forall|k: u64| #[trigger]
                    old(self)@.chars.contains_key(k) ==> self@.chars.contains_key(k)
                        && self@.chars[k] == old(self)@.chars[k],
                forall|j: int| 0 <= j < i ==> spec_has(self@, #[trigger] text@[j], size),
                forall|k: u64| #[trigger]
                    self@.chars.contains_key(k) ==> old(self)@.chars.contains_key(k) || (exists|
                        j: int,
                    |
                        0 <= j < i && k == #[trigger] spec_glyph_key(text@[j], size)),
                forall|j: int|
                    0 <= j < i && !spec_has(old(self)@, #[trigger] text@[j], size) ==> (exists|
                        id: u64,
                    |
                        spec_entry(self@, text@[j], size) == #[trigger] spec_entry_of(
                            resolved_raster(old(self)@.fonts, text@[j], size),
                            id,
                        )),
                self@.atlas.len() >= old(self)@.atlas.len(),
                self@.atlas.subrange(0, old(self)@.atlas.len() as int) == old(self)@.atlas,
                (forall|j: int|
                    0 <= j < n ==> spec_has(old(self)@, #[trigger] text@[j], size)) ==> self@
                    == old(self)@,
                width <= ADVANCE_CAP,
                width == spec_width_upto(self@, text@.take(i as int), size),
                cmds@.len() == i,
                forall|j: int|
                    0 <= j < i ==> cmds@[j] == spec_glyph_draw(self@, text@, size, draw, j),
            decreases n - i,
        {
            let c = text.get_char(i);
            let ghost pre = self@;
            self.cache_glyph(c, size);
            proof {
                assert(forall|j: int|
                    0 <= j < i ==> spec_entry(self@, #[trigger] text@[j], size) == spec_entry(
                        pre,
                        text@[j],
                        size,
                    ));
                lemma_measure_agree(pre, self@, text@.take(i as int), size);
                assert forall|k: u64| #[trigger]
                    self@.chars.contains_key(k) implies old(self)@.chars.contains_key(k) || (
                exists|j: int| 0 <= j < i + 1 && k == #[trigger] spec_glyph_key(text@[j], size)) by {
                    if !pre.chars.contains_key(k) {
                        assert(k == spec_glyph_key(text@[i as int], size));
                    }
                }
                assert(self@.atlas.subrange(0, old(self)@.atlas.len() as int) =~= old(self)@.atlas);
                assert forall|j: int|
                    0 <= j < i + 1 && !spec_has(old(self)@, #[trigger] text@[j], size) implies (
                exists|id: u64|
                    spec_entry(self@, text@[j], size) == #[trigger] spec_entry_of(
                        resolved_raster(old(self)@.fonts, text@[j], size),
                        id,
                    )) by {
                    if j < i {
                        let id0 = choose|id: u64|
                            spec_entry(pre, text@[j], size) == #[trigger] spec_entry_of(
                                resolved_raster(old(self)@.fonts, text@[j], size),
                                id,
                            );
                        assert(spec_entry(self@, text@[j], size) == spec_entry_of(
                            resolved_raster(old(self)@.fonts, text@[j], size),
                            id0,
                        ));
                    } else if !spec_has(pre, text@[j], size) {
                        assert(spec_entry(self@, text@[j], size) == spec_entry_of(
                            resolved_raster(old(self)@.fonts, text@[j], size),
                            pre.atlas.len() as u64,
                        ));
                    } else {
                        let k = spec_glyph_key(text@[j], size);
                        let j2 = choose|j2: int|
                            0 <= j2 < i && k == #[trigger] spec_glyph_key(text@[j2], size);
                        lemma_glyph_key_injective(text@[j2], size, text@[j], size);
                        let id0 = choose|id: u64|
                            spec_entry(pre, text@[j2], size) == #[trigger] spec_entry_of(
                                resolved_raster(old(self)@.fonts, text@[j2], size),
                                id,
                            );
                        assert(spec_entry(self@, text@[j], size) == spec_entry_of(
                            resolved_raster(old(self)@.fonts, text@[j], size),
                            id0,
                        ));
                    }
                }
                assert forall|j: int|
                    0 <= j < i implies cmds@[j] == spec_glyph_draw(
                    self@,
                    text@,
                    size,
                    draw,
                    j,
                ) by {
                    assert(forall|k: int|
                        0 <= k < j ==> #[trigger] text@.take(j)[k] == text@[k]);
                    lemma_measure_agree(pre, self@, text@.take(j), size);
                }
            }
            let e = match self.glyph_info(c, size) {
                Some(e) => e,
                None => vstd::pervasive::unreached(),
            };
            let dx = e.offset_x as i64 + width as i64;
            let dy = 0 - (e.height as i64) - (e.offset_y as i64) + (
            if let DrawFrom::TopLeft = draw {
                size as i64
            } else {
                0
            });
            cmds.push(GlyphDraw { id: e.id, dx, dy, width: e.width, height: e.height });
            let adv = e.advance as u64;
            width = if width <= ADVANCE_CAP - adv {
                width + adv
            } else {
                ADVANCE_CAP
            };
            proof {
                assert(text@.take(i + 1 as int).drop_last() =~= text@.take(i as int));
                assert(text@.take(i + 1 as int).last() == text@[i as int]);
            }
            i = i + 1;
        }
        cmds
    }
}

/// Idempotence: caching the same (character, size) pair twice leaves the
/// state of the first call untouched — the second call performs no
/// rasterization, no atlas insertion and no record update, and the pair's
/// record is the one the first call produced.
pub proof fn lemma_cache_glyph_idempotent(
    pre: FontsModel,
    mid: FontsModel,
    post: FontsModel,
    c: char,
    size: u16,
)
    requires
        cache_glyph_post(pre, mid, c, size),
        cache_glyph_post(mid, post, c, size),
    ensures
        post == mid,
        spec_entry(post, c, size) == spec_entry(mid, c, size),
{
    assert(spec_has(mid, c, size));
}

/// Fallback resolution: when a (character, size) pair is cached for the
/// first time and the first font in load order that has a glyph for the
/// character stands at position `i`, the new record and image come from
/// that font's rasterization.
pub proof fn lemma_cache_glyph_uses_first_font(
    pre: FontsModel,
    post: FontsModel,
    c: char,
    size: u16,
    i: int,
)
    requires
        cache_glyph_post(pre, post, c, size),
        !spec_has(pre, c, size),
        0 <= i < pre.fonts.len(),
        font_glyph_index(pre.fonts[i], c) != 0,
        forall|j: int| 0 <= j < i ==> font_glyph_index(#[trigger] pre.fonts[j], c) == 0,
    ensures
        spec_entry(post, c, size) == spec_entry_of(
            font_raster(pre.fonts[i], font_glyph_index(pre.fonts[i], c), size),
            pre.atlas.len() as u64,
        ),
{
    lemma_first_font_with(pre.fonts, c);
    assert(first_font_with(pre.fonts, c) != -1);
    let f = first_font_with(pre.fonts, c);
    if f < i {
        assert(font_glyph_index(pre.fonts[f], c) == 0);
    }
    assert(f == i);
}

/// The plain (unsaturated) sum of the cached advances of a text's
/// characters.
pub open spec fn spec_advance_sum(m: FontsModel, text: Seq<char>, size: u16) -> int
    decreases text.len(),
{
    if text.len() == 0 {
        0
    } else {
        spec_advance_sum(m, text.drop_last(), size) + spec_entry(m, text.last(), size).advance
    }
}

/// Consistency of measurement with the cached records: as long as the sum
/// of the cached advances stays below [`ADVANCE_CAP`], the measured width
/// of a text is exactly that sum — for "AB", the advance of 'A' plus the
/// advance of 'B'.
pub proof fn lemma_measure_width_is_sum(m: FontsModel, text: Seq<char>, size: u16)
    requires
        spec_advance_sum(m, text, size) <= ADVANCE_CAP as int,
    ensures
        spec_width_upto(m, text, size) == spec_advance_sum(m, text, size),
    decreases text.len(),
{
    if text.len() > 0 {
        lemma_measure_width_is_sum(m, text.drop_last(), size);
    }
}

/// Degenerate input: caching a character that no loaded font covers does
/// not fail — the pair gets a zero record, which contributes zero advance
/// and zero height extent to any measurement.
pub proof fn lemma_missing_char_degenerate(
    pre: FontsModel,
    post: FontsModel,
    c: char,
    size: u16,
)
    requires
        cache_glyph_post(pre, post, c, size),
        !spec_has(pre, c, size),
        first_font_with(pre.fonts, c) == -1,
    ensures
        spec_entry(post, c, size) == spec_entry_of(spec_empty_raster(), pre.atlas.len() as u64),
        spec_entry(post, c, size).advance == 0,
        spec_entry(post, c, size).offset_y == 0,
        glyph_top(spec_entry(post, c, size)) == 0,
        spec_measure(post, seq![c], size) == (TextDimensions { width: 0, height: 0, offset_y: 0 }),
{
    let e = spec_entry(post, c, size);
    let t = seq![c];
    assert(t.len() == 1);
    assert(t.last() == c);
    assert(t.drop_last() =~= Seq::<char>::empty());
    assert(spec_width_upto(post, t.drop_last(), size) == 0);
    assert(spec_min_offset(post, t.drop_last(), size) == i32::MAX as int);
    assert(spec_max_top(post, t.drop_last(), size) == i64::MIN as int);
    assert(spec_width_upto(post, t, size) == sat_cap(0 + e.advance));
    assert(spec_min_offset(post, t, size) == 0);
    assert(spec_max_top(post, t, size) == 0);
}

/// Unique slots: two different cached (character, size) pairs never share
/// an atlas slot.
pub proof fn lemma_unique_slots(m: FontsModel, c1: char, s1: u16, c2: char, s2: u16)
    requires
        model_wf(m),
        spec_has(m, c1, s1),
        spec_has(m, c2, s2),
        c1 != c2 || s1 != s2,
    ensures
        spec_entry(m, c1, s1).id != spec_entry(m, c2, s2).id,
{
    if spec_glyph_key(c1, s1) == spec_glyph_key(c2, s2) {
        lemma_glyph_key_injective(c1, s1, c2, s2);
    }
}

impl Default for Fonts {
    /// Same as [`Fonts::new`].
    fn default() -> (r: Self)
        ensures
            r.wf(),
            r@.fonts == Seq::<fontdue::Font>::empty(),
            r@.chars == Map::<u64, CharacterInfo>::empty(),
            r@.atlas == Seq::<SpriteModel>::empty(),
    {
        Fonts::new()
    }
}

} // verus!
