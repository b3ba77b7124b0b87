//! Fonts, the glyph cache and the font atlas texture.
//!
//! Glyphs are rasterised by fontdue, packed into a single RGBA atlas by
//! rect_packer and cached by (font, character, size) in a hashbrown map.

use std::sync::Arc;
use vstd::prelude::*;
use fontdue::{Font, FontSettings};
use rect_packer::DensePacker;
use crate::math::{IVec2, UVec2, rects_disjoint, rect_covers, skyline_used, fresh_skyline, lemma_no_shared_cell_disjoint};

verus! {

#[verifier::external_type_specification]
#[verifier::external_body]
pub struct ExFont(Font);

#[verifier::external_type_specification]
#[verifier::external_body]
pub struct ExDensePacker(DensePacker);

// ---------------------------------------------------------------------------
// fontdue

/// Whether fontdue accepts `data` as a font when it is parsed with the default settings.
pub uninterp spec fn font_parses(data: Seq<u8>) -> bool;

/// A font that fontdue parsed (with the default settings), kept with the bytes it was
/// parsed from. Only [`font_from_bytes`] makes one.
pub struct ParsedFont {
    font: Font,
    data: Vec<u8>,
}

impl ParsedFont {
    /// The bytes the font was parsed from.
    pub closed spec fn source(&self) -> Seq<u8> {
        self.data@
    }

    /// Parse `data` as a font; `None` when fontdue does not accept it.
    pub fn from_bytes(data: &[u8]) -> (font: Option<ParsedFont>)
        ensures
            font is Some <==> font_parses(data@),
            font matches Some(f) ==> f.source() == data@,
    {
        font_from_bytes(data)
    }
}

/// Calls `fontdue::Font::from_bytes` with `FontSettings::default()` and keeps a copy of the
/// bytes beside the font.
/// Claimed: a font comes back exactly when fontdue parses the bytes, which depends on the
/// bytes alone, and it keeps those bytes. Nothing is claimed about the font itself.
#[verifier::external_body]
fn font_from_bytes(data: &[u8]) -> (font: Option<ParsedFont>)
    ensures
        font is Some <==> font_parses(data@),
        font matches Some(f) ==> f.source() == data@,
{
    match Font::from_bytes(data, FontSettings::default()) {
        Ok(font) => Some(ParsedFont { font, data: data.to_vec() }),
        Err(_) => None,
    }
}

/// The integer part of fontdue's glyph metrics (the advance and outline bounds, which are
/// floating point, are not kept).
#[derive(Clone, Copy, Debug, PartialEq, Eq, Structural)]
pub struct GlyphMetrics {
    pub xmin: i32,
    pub ymin: i32,
    pub width: usize,
    pub height: usize,
}

/// What fontdue gives when the font parsed (with the default settings) from `font_data`
/// rasterises `character` at `size` pixels: the metrics' `xmin`, `ymin`, `width` and
/// `height`, and the coverage bitmap.
pub uninterp spec fn glyph_raster(font_data: Seq<u8>, character: char, size: u8) -> (i32, i32, usize, usize, Seq<u8>);

/// Calls `fontdue::Font::rasterize(character, size as px)` on the font.
/// Claimed: the result is a function of the bytes the font was parsed from, the character
/// and the size (fontdue parses and rasterises deterministically, and a [`ParsedFont`] is
/// only made by [`font_from_bytes`] from exactly those bytes); it is named, not stated,
/// except that the coverage bitmap holds `width * height` bytes, as fontdue builds it from
/// a raster of that size.
#[verifier::external_body]
fn rasterize(font: &ParsedFont, character: char, size: u8) -> (glyph: (GlyphMetrics, Vec<u8>))
    ensures
        glyph_raster(font.source(), character, size)
            == (glyph.0.xmin, glyph.0.ymin, glyph.0.width, glyph.0.height, glyph.1@),
        glyph.1@.len() == glyph.0.width * glyph.0.height,
{
    let (metrics, bitmap) = font.font.rasterize(character, size.into());
    (
        GlyphMetrics {
            xmin: metrics.xmin,
            ymin: metrics.ymin,
            width: metrics.width,
            height: metrics.height,
        },
        bitmap,
    )
}

// ---------------------------------------------------------------------------
// rect_packer

/// The area (width, height) that a dense packer was created for.
pub uninterp spec fn dense_packer_size(packer: DensePacker) -> (int, int);

/// A dense packer's skyline: its segments (left, y, width), left to right, each the
/// lowest row that the rectangles placed so far reach over its columns.
pub uninterp spec fn dense_packer_skyline(packer: DensePacker) -> Seq<(int, int, int)>;

/// What `DensePacker::pack(width, height, false)` does on a packer of `size` with
/// `skyline`: the position (x, y) where it places the rectangle and the skyline after it,
/// or `None` when it places nothing.
pub uninterp spec fn dense_pack(size: (int, int), skyline: Seq<(int, int, int)>, width: int, height: int)
    -> Option<(int, int, Seq<(int, int, int)>)>;

/// Calls `rect_packer::DensePacker::new(width, height)`.
/// Claimed: the packer covers `max(0, width)` by `max(0, height)`, as its constructor
/// clamps, and has the single skyline segment at the top that it starts with.
#[verifier::external_body]
fn dense_packer_new(width: i32, height: i32) -> (packer: DensePacker)
    ensures
        dense_packer_size(packer) == (
            if width < 0 { 0int } else { width as int },
            if height < 0 { 0int } else { height as int },
        ),
        dense_packer_skyline(packer) == fresh_skyline(dense_packer_size(packer).0),
{
    DensePacker::new(width, height)
}

/// Calls `rect_packer::DensePacker::pack(width, height, false)`.
/// Claimed: the result, and the skyline afterwards, are [`dense_pack`] of the packer's size
/// and skyline and the request (`pack`, `find_skyline`, `can_put`, `split` and `merge`
/// depend on nothing else); when nothing is returned the packer is unchanged (`pack`
/// returns before it changes anything), and the size is kept. Besides, from the same
/// code: a rectangle that is not positive in both directions gets nothing; a returned
/// position places the rectangle wholly inside the area (`can_put` checks this), on top of
/// the skyline over its span, so it covers no cell below the skyline; afterwards the
/// skyline lies below the rectangle and below every cell it lay below before (skyline
/// heights only grow); and the skyline a packer starts with takes a positive rectangle
/// that fits the area at (0, 0). The sums that the packer forms must fit in `i32`, hence
/// the `requires`.
#[verifier::external_body]
fn dense_packer_pack(packer: &mut DensePacker, width: i32, height: i32) -> (position: Option<IVec2>)
    requires
        width + dense_packer_size(*old(packer)).0 <= i32::MAX,
        height + dense_packer_size(*old(packer)).1 <= i32::MAX,
    ensures
        dense_packer_size(*final(packer)) == dense_packer_size(*old(packer)),
        (match position {
            Some(p) => {
                &&& dense_pack(dense_packer_size(*old(packer)), dense_packer_skyline(*old(packer)), width as int, height as int)
                    == Some((p.x as int, p.y as int, dense_packer_skyline(*final(packer))))
                &&& 0 < width
                &&& 0 < height
                &&& 0 <= p.x
                &&& p.x + width <= dense_packer_size(*old(packer)).0
                &&& 0 <= p.y
                &&& p.y + height <= dense_packer_size(*old(packer)).1
                &&& forall|c: (int, int)| #[trigger] rect_covers((p.x as int, p.y as int, width as int, height as int), c)
                    ==> !skyline_used(dense_packer_skyline(*old(packer))).contains(c)
                        && skyline_used(dense_packer_skyline(*final(packer))).contains(c)
                &&& forall|c: (int, int)| #[trigger] skyline_used(dense_packer_skyline(*old(packer))).contains(c)
                    ==> skyline_used(dense_packer_skyline(*final(packer))).contains(c)
            },
            None => {
                &&& dense_pack(dense_packer_size(*old(packer)), dense_packer_skyline(*old(packer)), width as int, height as int) is None
                &&& *final(packer) == *old(packer)
            },
        }),
        width <= 0 || height <= 0 ==> position is None,
        dense_packer_skyline(*old(packer)) == fresh_skyline(dense_packer_size(*old(packer)).0) && 0 < width && 0 < height
            && width <= dense_packer_size(*old(packer)).0 && height <= dense_packer_size(*old(packer)).1
            ==> position == Some(IVec2 { x: 0, y: 0 }),
{
    match packer.pack(width, height, false) {
        Some(rect) => Some(IVec2 { x: rect.x, y: rect.y }),
        None => None,
    }
}

// ---------------------------------------------------------------------------
// the glyph cache (a hashbrown map)

/// Key of a cached glyph: font index, character and pixel size.
pub type GlyphKey = (usize, char, u8);

/// A rasterised glyph and its place in the atlas.
pub struct GlyphCacheEntry {
    pub data: Vec<u8>,
    pub metrics: GlyphMetrics,
    pub position: IVec2,
    pub size: UVec2,
}

/// The glyph cache: a `hashbrown::HashMap` from glyph keys to shared entries.
#[verifier::external_body]
pub struct GlyphCache {
    map: hashbrown::HashMap<GlyphKey, Arc<GlyphCacheEntry>>,
}

/// What the glyph cache holds.
pub uninterp spec fn glyph_cache_contents(cache: GlyphCache) -> Map<GlyphKey, Arc<GlyphCacheEntry>>;

/// Calls `hashbrown::HashMap::new`. Claimed: the map is empty.
#[verifier::external_body]
fn glyph_cache_new() -> (cache: GlyphCache)
    ensures
        glyph_cache_contents(cache) =~= Map::empty(),
{
    GlyphCache { map: hashbrown::HashMap::new() }
}

/// Calls `hashbrown::HashMap::get`. Claimed: the value stored under `key`, if there is one.
#[verifier::external_body]
fn glyph_cache_get<'a>(cache: &'a GlyphCache, key: &GlyphKey) -> (entry: Option<&'a Arc<GlyphCacheEntry>>)
    ensures
        (match entry {
            Some(e) => glyph_cache_contents(*cache).contains_key(*key) && *e == glyph_cache_contents(*cache)[*key],
            None => !glyph_cache_contents(*cache).contains_key(*key),
        }),
{
    cache.map.get(key)
}

/// Calls `hashbrown::HashMap::insert_unique_unchecked`, which its documentation allows only
/// for a key that the map does not hold (hence the `requires`). Claimed: the map then holds
/// `entry` under `key` besides what it held.
#[verifier::external_body]
fn glyph_cache_insert_unique_unchecked(cache: &mut GlyphCache, key: GlyphKey, entry: Arc<GlyphCacheEntry>)
    requires
        !glyph_cache_contents(*old(cache)).contains_key(key),
    ensures
        glyph_cache_contents(*final(cache)) == glyph_cache_contents(*old(cache)).insert(key, entry),
{
    cache.map.insert_unique_unchecked(key, entry);
}

/// Calls `Arc::clone`, which std documents as another pointer to the same allocation:
/// the value behind it is the same.
#[verifier::external_body]
fn arc_clone<T>(value: &Arc<T>) -> (copy: Arc<T>)
    ensures
        copy == *value,
{
    Arc::clone(value)
}


// ---------------------------------------------------------------------------
// fonts

/// Handle of a font registered with a [`FontManager`]: its index.
#[derive(Clone, Copy, Debug, PartialEq, Eq, Structural)]
pub struct FontHandle(pub(crate) usize);

impl FontHandle {
    /// The index of the font that this handle names.
    pub closed spec fn index(self) -> nat {
        self.0 as nat
    }

    /// The handle of the font at `index`.
    pub(crate) fn from_index(index: usize) -> (handle: FontHandle)
        ensures
            handle.index() == index,
    {
        FontHandle(index)
    }
}

/// A font handle's index is a `usize`.
pub proof fn lemma_font_handle_index(handle: FontHandle)
    ensures
        0 <= handle.index() <= usize::MAX,
{
}

/// The fonts known to the text renderer, in the order they were added.
pub struct FontManager {
    fonts: Vec<ParsedFont>,
}

impl View for FontManager {
    type V = Seq<ParsedFont>;

    closed spec fn view(&self) -> Seq<ParsedFont> {
        self.fonts@
    }
}

impl FontManager {
    /// A manager without fonts.
    pub fn new() -> (manager: Self)
        ensures
            manager@ == Seq::<ParsedFont>::empty(),
    {
        FontManager { fonts: Vec::new() }
    }

    /// Add a parsed font; its handle is its position.
    pub fn add_font(&mut self, font: ParsedFont) -> (handle: FontHandle)
        ensures
            final(self)@ == old(self)@.push(font),
            handle.index() == old(self)@.len(),
    {
        self.fonts.push(font);
        FontHandle(self.fonts.len() - 1)
    }

    /// The font that `handle` names, if there is one.
    pub fn get(&self, handle: FontHandle) -> (font: Option<&ParsedFont>)
        ensures
            handle.index() < self@.len() ==> font == Some(&self@[handle.index() as int]),
            handle.index() >= self@.len() ==> font is None,
    {
        if handle.0 < self.fonts.len() {
            Some(&self.fonts[handle.0])
        } else {
            None
        }
    }
}

impl Default for FontManager {
    fn default() -> (manager: Self)
        ensures
            manager@ == Seq::<ParsedFont>::empty(),
    {
        Self::new()
    }
}

// ---------------------------------------------------------------------------
// the atlas texture

/// Byte `i` of the RGBA atlas `tex` (rows of `tex_w` pixels) once the glyph bitmap `data`
/// (`size` pixels, at `pos`) has been written into the pixels of its rows before `rows`
/// and into the first `cols` pixels of row `rows`: such a pixel is opaque white with the
/// glyph's coverage as alpha; every other byte keeps its value.
pub open spec fn atlas_byte_upto(
    tex: Seq<u8>,
    tex_w: int,
    pos: IVec2,
    size: UVec2,
    data: Seq<u8>,
    rows: int,
    cols: int,
    i: int,
) -> u8 {
    let pixel = i / 4;
    let row = pixel / tex_w - pos.y;
    let col = pixel % tex_w - pos.x;
    let written = 0 <= row < size.y && 0 <= col < size.x && (row < rows || (row == rows && col < cols));
    if written {
        if i % 4 == 3 {
            data[size.x * row + col]
        } else {
            255u8
        }
    } else {
        tex[i]
    }
}

/// The atlas `tex` after the glyph has been written into its first `rows` rows and the
/// first `cols` pixels of the next one.
pub open spec fn atlas_placed_upto(
    tex: Seq<u8>,
    tex_w: int,
    pos: IVec2,
    size: UVec2,
    data: Seq<u8>,
    rows: int,
    cols: int,
) -> Seq<u8> {
    Seq::new(tex.len(), |i: int| atlas_byte_upto(tex, tex_w, pos, size, data, rows, cols, i))
}

/// The atlas `tex` once the whole glyph bitmap has been written at its position.
pub open spec fn atlas_with_glyph(tex: Seq<u8>, tex_w: int, pos: IVec2, size: UVec2, data: Seq<u8>) -> Seq<u8> {
    atlas_placed_upto(tex, tex_w, pos, size, data, size.y as int, 0)
}

/// A glyph of `size` at `pos` lies inside an atlas of `tex_size`.
pub open spec fn glyph_fits(pos: IVec2, size: UVec2, tex_size: UVec2) -> bool {
    &&& 0 <= pos.x
    &&& 0 <= pos.y
    &&& pos.x + size.x <= tex_size.x
    &&& pos.y + size.y <= tex_size.y
}

/// The index of channel `c` of pixel (`x`, `y`) in an RGBA image `w` pixels wide.
pub open spec fn rgba_index(w: int, x: int, y: int, c: int) -> int {
    4 * (w * y + x) + c
}

/// The rectangle (x, y, width, height) that a glyph covers in the atlas.
pub open spec fn glyph_rect(e: GlyphCacheEntry) -> (int, int, int, int) {
    (e.position.x as int, e.position.y as int, e.size.x as int, e.size.y as int)
}

/// The atlas `tex` (rows of `tex_w` pixels) shows the glyph `e` at its place: each pixel of
/// the glyph's rectangle is opaque white with the glyph's coverage as alpha.
pub open spec fn atlas_shows(tex: Seq<u8>, tex_w: int, e: GlyphCacheEntry) -> bool {
    forall|x: int, y: int, c: int|
        0 <= x < e.size.x && 0 <= y < e.size.y && 0 <= c < 4 ==>
            #[trigger] tex[rgba_index(tex_w, e.position.x + x, e.position.y + y, c)]
                == if c == 3 { e.data@[e.size.x * y + x] } else { 255u8 }
}

/// Byte `i` of an RGBA image `w` pixels wide lies in pixel (`i / 4 / w`, `i / 4 % w`),
/// channel `i % 4`.
proof fn lemma_byte_pixel(i: int, w: int)
    requires
        0 <= i,
        0 < w,
    ensures
        i == 4 * (w * ((i / 4) / w) + (i / 4) % w) + i % 4,
        0 <= i % 4 < 4,
        0 <= (i / 4) % w < w,
        0 <= (i / 4) / w,
{
    vstd::arithmetic::div_mod::lemma_fundamental_div_mod(i, 4);
    vstd::arithmetic::div_mod::lemma_fundamental_div_mod(i / 4, w);
    assert(i / 4 >= 0) by {
        vstd::arithmetic::div_mod::lemma_div_pos_is_pos(i, 4);
    }
    assert((i / 4) / w >= 0) by {
        vstd::arithmetic::div_mod::lemma_div_pos_is_pos(i / 4, w);
    }
    vstd::arithmetic::div_mod::lemma_mod_bound(i, 4);
    vstd::arithmetic::div_mod::lemma_mod_bound(i / 4, w);
}

/// The bytes of pixel (`row`, `col`) of an RGBA image `w` pixels wide.
proof fn lemma_pixel_bytes(i: int, w: int, row: int, col: int)
    requires
        0 < w,
        0 <= row,
        0 <= col < w,
        4 * (w * row + col) <= i < 4 * (w * row + col) + 4,
    ensures
        i / 4 == w * row + col,
        (i / 4) / w == row,
        (i / 4) % w == col,
        i % 4 == i - 4 * (w * row + col),
{
    vstd::arithmetic::div_mod::lemma_fundamental_div_mod_converse(i, 4, w * row + col, i - 4 * (w * row + col));
    vstd::arithmetic::div_mod::lemma_fundamental_div_mod_converse(w * row + col, w, row, col);
}


/// Channel `c` of pixel (`x`, `y`) of a glyph at `pos` lies inside an atlas of `tex_size`
/// that the glyph fits in.
proof fn lemma_glyph_pixel_in_atlas(tex_size: UVec2, pos: IVec2, size: UVec2, x: int, y: int, c: int)
    requires
        glyph_fits(pos, size, tex_size),
        0 <= x < size.x,
        0 <= y < size.y,
        0 <= c < 4,
    ensures
        0 <= rgba_index(tex_size.x as int, pos.x + x, pos.y + y, c) < tex_size.x * tex_size.y * 4,
{
    let w = tex_size.x as int;
    let h = tex_size.y as int;
    let row = pos.y + y;
    let col = pos.x + x;
    assert(0 <= w * row + col < w * h) by (nonlinear_arith)
        requires
            0 <= row,
            row + 1 <= h,
            0 <= col < w,
    {
        assert(w * row + w == w * (row + 1));
        assert(w * (row + 1) <= w * h);
    }
}

/// A glyph written into the atlas shows there.
proof fn lemma_written_glyph_shows(tex: Seq<u8>, tex_size: UVec2, e: GlyphCacheEntry)
    requires
        tex.len() == tex_size.x * tex_size.y * 4,
        glyph_fits(e.position, e.size, tex_size),
        0 < e.size.x,
    ensures
        atlas_shows(atlas_with_glyph(tex, tex_size.x as int, e.position, e.size, e.data@), tex_size.x as int, e),
{
    let w = tex_size.x as int;
    let pos = e.position;
    let size = e.size;
    let placed = atlas_with_glyph(tex, w, pos, size, e.data@);
    vstd::arithmetic::div_mod::lemma_mod_multiples_basic(tex_size.x * tex_size.y, 4);
    lemma_atlas_with_glyph_pixels(tex, w, pos, size, e.data@);
    assert forall|x: int, y: int, c: int| 0 <= x < size.x && 0 <= y < size.y && 0 <= c < 4 implies
        #[trigger] placed[rgba_index(w, pos.x + x, pos.y + y, c)]
            == if c == 3 { e.data@[size.x * y + x] } else { 255u8 } by {
        lemma_glyph_pixel_in_atlas(tex_size, pos, size, x, y, c);
        assert(placed[4 * (w * (pos.y + y) + pos.x + x) + c] == if c == 3 { e.data@[size.x * y + x] } else { 255u8 });
    }
}

/// Writing a glyph into the atlas leaves every glyph clear of its rectangle as it was shown.
proof fn lemma_other_glyph_still_shows(
    tex: Seq<u8>,
    tex_size: UVec2,
    e: GlyphCacheEntry,
    pos: IVec2,
    size: UVec2,
    data: Seq<u8>,
)
    requires
        tex.len() == tex_size.x * tex_size.y * 4,
        glyph_fits(e.position, e.size, tex_size),
        atlas_shows(tex, tex_size.x as int, e),
        rects_disjoint(glyph_rect(e), (pos.x as int, pos.y as int, size.x as int, size.y as int)),
    ensures
        atlas_shows(atlas_with_glyph(tex, tex_size.x as int, pos, size, data), tex_size.x as int, e),
{
    let w = tex_size.x as int;
    let placed = atlas_with_glyph(tex, w, pos, size, data);
    assert forall|x: int, y: int, c: int| 0 <= x < e.size.x && 0 <= y < e.size.y && 0 <= c < 4 implies
        #[trigger] placed[rgba_index(w, e.position.x + x, e.position.y + y, c)]
            == if c == 3 { e.data@[e.size.x * y + x] } else { 255u8 } by {
        let i = rgba_index(w, e.position.x + x, e.position.y + y, c);
        lemma_glyph_pixel_in_atlas(tex_size, e.position, e.size, x, y, c);
        lemma_pixel_bytes(i, w, e.position.y + y, e.position.x + x);
        assert(tex[i] == if c == 3 { e.data@[e.size.x * y + x] } else { 255u8 });
    }
}

/// An atlas whose byte count fits in `u32` and that is at least one pixel high (wide) is
/// less than 2^30 pixels wide (high).
proof fn lemma_atlas_sides(size: UVec2)
    requires
        size.x * size.y * 4 <= u32::MAX,
    ensures
        size.y >= 1 ==> size.x < 0x4000_0000,
        size.x >= 1 ==> size.y < 0x4000_0000,
{
    let x = size.x as int;
    let y = size.y as int;
    if y >= 1 {
        assert(x < 0x4000_0000) by (nonlinear_arith)
            requires
                x * y * 4 <= 0xffff_ffff,
                y >= 1,
                x >= 0,
        ;
    }
    if x >= 1 {
        assert(y < 0x4000_0000) by (nonlinear_arith)
            requires
                x * y * 4 <= 0xffff_ffff,
                x >= 1,
                y >= 0,
        ;
    }
}

/// The extent, along one axis, of the packer that serves an atlas of `v` pixels
/// (the atlas size is handed to the packer as an `i32`, which it clamps at zero).
pub open spec fn packer_extent(v: u32) -> int {
    if v <= i32::MAX {
        v as int
    } else {
        0
    }
}

/// A description of the atlas texture, handed to the renderer.
#[derive(Clone, Copy, Debug)]
pub struct FontTextureInfo<'a> {
    pub modified: bool,
    pub data: &'a [u8],
    pub size: UVec2,
}

/// Owns the font atlas: an RGBA texture into which glyphs are packed as they are first used.
pub struct FontTextureManager {
    glyph_cache: GlyphCache,
    packer: DensePacker,
    font_texture: Vec<u8>,
    font_texture_size: UVec2,
    modified: bool,
}

/// What looking up the glyph `key`, of the font parsed from `source`, does to the atlas
/// `before`, leaving `after` and returning `entry`: a cached glyph comes back and nothing
/// changes. An uncached one is rasterised (fontdue's raster of the key) and handed to the
/// atlas packer; it comes back exactly when the packer places it, at the packer's
/// position, written into the atlas, cached under `key`, with the atlas marked modified
/// and the packer's skyline the one that placing it left. When the packer places nothing
/// (no room, or an empty bitmap) nothing changes. Into an atlas that holds no glyph, a
/// non-empty glyph that fits always goes, at (0, 0).
pub open spec fn glyph_outcome(
    before: FontTextureManager,
    after: FontTextureManager,
    key: GlyphKey,
    source: Seq<u8>,
    entry: Option<Arc<GlyphCacheEntry>>,
) -> bool {
    &&& after.texture_size() == before.texture_size()
    &&& if before.cache().contains_key(key) {
        &&& entry == Some(before.cache()[key])
        &&& after.cache() == before.cache()
        &&& after.texture() == before.texture()
        &&& after.is_modified() == before.is_modified()
        &&& after.packer_skyline() == before.packer_skyline()
    } else {
        let r = glyph_raster(source, key.1, key.2);
        let pw = packer_extent(before.texture_size().x);
        let ph = packer_extent(before.texture_size().y);
        let packed = dense_pack((pw, ph), before.packer_skyline(), r.2 as int, r.3 as int);
        &&& (entry is Some <==> (r.2 + pw <= i32::MAX && r.3 + ph <= i32::MAX && packed is Some))
        &&& match entry {
            Some(e) => {
                &&& packed == Some((e.position.x as int, e.position.y as int, after.packer_skyline()))
                &&& after.cache() == before.cache().insert(key, e)
                &&& glyph_raster(source, key.1, key.2)
                    == (e.metrics.xmin, e.metrics.ymin, e.metrics.width, e.metrics.height, e.data@)
                &&& e.size.x == e.metrics.width && e.size.y == e.metrics.height
                &&& 0 < e.size.x && 0 < e.size.y
                &&& e.data@.len() == e.size.x * e.size.y
                &&& glyph_fits(e.position, e.size, before.texture_size())
                &&& after.texture() == atlas_with_glyph(
                    before.texture(),
                    before.texture_size().x as int,
                    e.position,
                    e.size,
                    e.data@,
                )
                &&& after.is_modified()
            },
            None => {
                &&& after.cache() == before.cache()
                &&& after.texture() == before.texture()
                &&& after.is_modified() == before.is_modified()
                &&& after.packer_skyline() == before.packer_skyline()
            },
        }
    }
    &&& before.cache() == Map::<GlyphKey, Arc<GlyphCacheEntry>>::empty()
        && 0 < glyph_raster(source, key.1, key.2).2 <= before.texture_size().x
        && 0 < glyph_raster(source, key.1, key.2).3 <= before.texture_size().y
        ==> (entry matches Some(e) && e.position == (IVec2 { x: 0, y: 0 }))
}

impl FontTextureManager {
    /// The cached glyphs by key.
    pub closed spec fn cache(&self) -> Map<GlyphKey, Arc<GlyphCacheEntry>> {
        glyph_cache_contents(self.glyph_cache)
    }

    /// The bytes of the RGBA atlas, row by row.
    pub closed spec fn texture(&self) -> Seq<u8> {
        self.font_texture@
    }

    /// The atlas size in pixels.
    pub closed spec fn texture_size(&self) -> UVec2 {
        self.font_texture_size
    }

    /// Whether a glyph was added since the flag was last reset.
    pub closed spec fn is_modified(&self) -> bool {
        self.modified
    }

    /// The skyline of the packer that places glyphs in the atlas.
    pub closed spec fn packer_skyline(&self) -> Seq<(int, int, int)> {
        dense_packer_skyline(self.packer)
    }

    /// The atlas holds four bytes per pixel, its byte count fits in `u32`, and the packer
    /// covers the atlas.
    spec fn layout_ok(&self) -> bool {
        &&& self.font_texture_size.x * self.font_texture_size.y * 4 <= u32::MAX
        &&& self.font_texture@.len() == self.font_texture_size.x * self.font_texture_size.y * 4
        &&& dense_packer_size(self.packer) == (
            packer_extent(self.font_texture_size.x),
            packer_extent(self.font_texture_size.y),
        )
    }

    /// The glyph `e` has its place in the atlas: a non-empty bitmap of its metrics' size,
    /// inside the atlas, on cells that the packer's skyline covers, and shown there.
    spec fn holds_glyph(&self, e: GlyphCacheEntry) -> bool {
        &&& 0 < e.size.x && 0 < e.size.y
        &&& e.size.x == e.metrics.width && e.size.y == e.metrics.height
        &&& e.data@.len() == e.size.x * e.size.y
        &&& glyph_fits(e.position, e.size, self.font_texture_size)
        &&& forall|c: (int, int)| #[trigger] rect_covers(glyph_rect(e), c)
            ==> skyline_used(dense_packer_skyline(self.packer)).contains(c)
        &&& atlas_shows(self.font_texture@, self.font_texture_size.x as int, e)
    }

    /// The atlas is laid out as its size says, every cached glyph is shown at its place,
    /// no two cached glyphs overlap, and the packer's skyline is the one it starts with
    /// while no glyph is cached.
    pub closed spec fn wf(&self) -> bool {
        &&& self.layout_ok()
        &&& forall|k: GlyphKey| #[trigger] self.cache().contains_key(k) ==> self.holds_glyph(*self.cache()[k])
        &&& forall|k1: GlyphKey, k2: GlyphKey|
            #![trigger self.cache().contains_key(k1), self.cache().contains_key(k2)]
            self.cache().contains_key(k1) && self.cache().contains_key(k2) && k1 != k2 ==>
                rects_disjoint(glyph_rect(*self.cache()[k1]), glyph_rect(*self.cache()[k2]))
        &&& self.cache() == Map::<GlyphKey, Arc<GlyphCacheEntry>>::empty()
            ==> dense_packer_skyline(self.packer) == fresh_skyline(packer_extent(self.font_texture_size.x))
    }

    /// An empty (all-zero) atlas of `size` pixels with an empty cache.
    /// The byte count of the atlas is computed in `u32`, hence the `requires`.
    pub fn new(size: UVec2) -> (ftm: Self)
        requires
            size.x * size.y * 4 <= u32::MAX,
        ensures
            ftm.wf(),
            ftm.texture_size() == size,
            ftm.texture() == Seq::new((size.x * size.y * 4) as nat, |i: int| 0u8),
            ftm.cache() =~= Map::empty(),
            !ftm.is_modified(),
    {
        assert(size.x * size.y * 4 <= u32::MAX);
        let byte_count: u32 = size.x * size.y * 4;
        let font_texture: Vec<u8> = vec![0u8; byte_count as usize];
        let x = size.x;
        let y = size.y;
        assert(x > 0x7fff_ffffu32 ==> (x as i32) < 0) by (bit_vector);
        assert(y > 0x7fff_ffffu32 ==> (y as i32) < 0) by (bit_vector);
        let packer = dense_packer_new(size.x as i32, size.y as i32);
        let ftm = FontTextureManager {
            glyph_cache: glyph_cache_new(),
            packer,
            font_texture,
            font_texture_size: size,
            modified: false,
        };
        assert(ftm.texture() =~= Seq::new((size.x * size.y * 4) as nat, |i: int| 0u8));
        ftm
    }

    /// Forget that glyphs were added.
    pub fn reset_modified(&mut self)
        requires
            old(self).wf(),
        ensures
            final(self).wf(),
            !final(self).is_modified(),
            final(self).cache() == old(self).cache(),
            final(self).texture() == old(self).texture(),
            final(self).texture_size() == old(self).texture_size(),
    {
        self.modified = false;
        assert forall|k: GlyphKey| #[trigger] self.cache().contains_key(k) implies self.holds_glyph(*self.cache()[k]) by {
            assert(old(self).holds_glyph(*old(self).cache()[k]));
        }
        assert(self.layout_ok());
        assert(self.cache() == old(self).cache());
    }

    /// The atlas as the renderer sees it.
    pub fn info(&self) -> (info: FontTextureInfo<'_>)
        ensures
            info.modified == self.is_modified(),
            info.data@ == self.texture(),
            info.size == self.texture_size(),
    {
        FontTextureInfo {
            modified: self.modified,
            data: self.font_texture.as_slice(),
            size: self.font_texture_size,
        }
    }

    /// Either looks up the glyph in the cache or rasterises it, packs it into the atlas,
    /// writes it there and caches it.
    ///
    /// A cached glyph is returned as it is and nothing changes. Otherwise the glyph is
    /// rasterised; when the atlas has room for its bitmap, the bitmap is written at the
    /// place the packer gives, cached under its key, and the atlas is marked modified.
    /// When there is no room (the atlas is full, or the bitmap is empty) the result is
    /// `None` and the cache, the atlas and the flag are as they were. An atlas that holds
    /// no glyph always takes a non-empty glyph that fits, at (0, 0).
    pub fn glyph(&mut self, font_manager: &FontManager, font_handle: FontHandle, character: char, size: u8) -> (entry: Option<Arc<GlyphCacheEntry>>)
        requires
            old(self).wf(),
            font_handle.index() < font_manager@.len(),
        ensures
            final(self).wf(),
            final(self).texture_size() == old(self).texture_size(),
            glyph_outcome(
                *old(self),
                *final(self),
                (font_handle.index() as usize, character, size),
                font_manager@[font_handle.index() as int].source(),
                entry,
            ),
    {
        let key: GlyphKey = (font_handle.0, character, size);
        let ghost source = font_manager@[font_handle.index() as int].source();
        let ghost owed = old(self).cache() == Map::<GlyphKey, Arc<GlyphCacheEntry>>::empty()
            && 0 < glyph_raster(source, character, size).2 <= old(self).texture_size().x
            && 0 < glyph_raster(source, character, size).3 <= old(self).texture_size().y;
        match glyph_cache_get(&self.glyph_cache, &key) {
            Some(cached) => {
                return Some(arc_clone(cached));
            },
            None => {},
        }
        let font = &font_manager.fonts[font_handle.0];
        let (metrics, bitmap) = rasterize(font, character, size);
        proof {
            if owed {
                lemma_atlas_sides(self.font_texture_size);
            }
        }
        if metrics.width > 0x7fff_ffff || metrics.height > 0x7fff_ffff {
            return None;
        }
        let width = metrics.width as i32;
        let height = metrics.height as i32;
        let packer_width: i32 = if self.font_texture_size.x <= 0x7fff_ffff {
            self.font_texture_size.x as i32
        } else {
            0
        };
        let packer_height: i32 = if self.font_texture_size.y <= 0x7fff_ffff {
            self.font_texture_size.y as i32
        } else {
            0
        };
        if width > i32::MAX - packer_width || height > i32::MAX - packer_height {
            return None;
        }
        let position = match dense_packer_pack(&mut self.packer, width, height) {
            Some(position) => position,
            None => {
                assert forall|k: GlyphKey| #[trigger] self.cache().contains_key(k) implies self.holds_glyph(*self.cache()[k]) by {
                    assert(old(self).holds_glyph(*old(self).cache()[k]));
                }
                assert(self.layout_ok());
                assert(self.cache() == old(self).cache());
                return None;
            },
        };
        let entry = GlyphCacheEntry {
            data: bitmap,
            metrics,
            position,
            size: UVec2 { x: width as u32, y: height as u32 },
        };
        self.glyph_place(&entry);
        let entry = Arc::new(entry);
        glyph_cache_insert_unique_unchecked(&mut self.glyph_cache, key, arc_clone(&entry));
        self.modified = true;
        proof {
            let fresh = *entry;
            let tex0 = old(self).font_texture@;
            let tex_size = self.font_texture_size;
            let used0 = skyline_used(dense_packer_skyline(old(self).packer));
            let used1 = skyline_used(dense_packer_skyline(self.packer));
            assert(glyph_rect(fresh) == (position.x as int, position.y as int, width as int, height as int));
            lemma_written_glyph_shows(tex0, tex_size, fresh);
            assert forall|k: GlyphKey| #[trigger] old(self).cache().contains_key(k) implies
                rects_disjoint(glyph_rect(*old(self).cache()[k]), glyph_rect(fresh)) by {
                let o = *old(self).cache()[k];
                assert(old(self).holds_glyph(o));
                assert forall|c: (int, int)| !(#[trigger] rect_covers(glyph_rect(o), c) && rect_covers(glyph_rect(fresh), c)) by {
                    if rect_covers(glyph_rect(o), c) {
                        assert(used0.contains(c));
                    }
                }
                lemma_no_shared_cell_disjoint(glyph_rect(o), glyph_rect(fresh));
            }
            assert forall|k: GlyphKey| #[trigger] self.cache().contains_key(k) implies self.holds_glyph(*self.cache()[k]) by {
                if k != key {
                    let o = *old(self).cache()[k];
                    assert(old(self).holds_glyph(o));
                    assert(old(self).cache().contains_key(k));
                    lemma_other_glyph_still_shows(tex0, tex_size, o, fresh.position, fresh.size, fresh.data@);
                    assert forall|c: (int, int)| #[trigger] rect_covers(glyph_rect(o), c) implies used1.contains(c) by {
                        assert(used0.contains(c));
                    }
                } else {
                    assert forall|c: (int, int)| #[trigger] rect_covers(glyph_rect(fresh), c) implies used1.contains(c) by {
                        assert(rect_covers((position.x as int, position.y as int, width as int, height as int), c));
                    }
                }
            }
            assert forall|k1: GlyphKey, k2: GlyphKey|
                #![trigger self.cache().contains_key(k1), self.cache().contains_key(k2)]
                self.cache().contains_key(k1) && self.cache().contains_key(k2) && k1 != k2 implies
                    rects_disjoint(glyph_rect(*self.cache()[k1]), glyph_rect(*self.cache()[k2])) by {
                if k1 == key {
                    assert(old(self).cache().contains_key(k2));
                    assert(rects_disjoint(glyph_rect(*old(self).cache()[k2]), glyph_rect(fresh)));
                } else if k2 == key {
                    assert(old(self).cache().contains_key(k1));
                } else {
                    assert(old(self).cache().contains_key(k1) && old(self).cache().contains_key(k2));
                }
            }
            assert(self.cache().contains_key(key));
            assert(self.cache() != Map::<GlyphKey, Arc<GlyphCacheEntry>>::empty());
        }
        Some(entry)
    }

    /// Write a glyph's coverage into the atlas: every pixel of its rectangle becomes opaque
    /// white with the coverage as alpha.
    fn glyph_place(&mut self, entry: &GlyphCacheEntry)
        requires
            old(self).layout_ok(),
            glyph_fits(entry.position, entry.size, old(self).texture_size()),
            entry.data@.len() >= entry.size.x * entry.size.y,
        ensures
            final(self).layout_ok(),
            final(self).packer == old(self).packer,
            final(self).texture() == atlas_with_glyph(
                old(self).texture(),
                old(self).texture_size().x as int,
                entry.position,
                entry.size,
                entry.data@,
            ),
            final(self).cache() == old(self).cache(),
            final(self).texture_size() == old(self).texture_size(),
            final(self).is_modified() == old(self).is_modified(),
    {
        let ghost tex0 = self.font_texture@;
        let tex_size = self.font_texture_size;
        let tw = tex_size.x;
        let th = tex_size.y;
        let size = entry.size;
        let position = entry.position;
        let px = position.x as u32;
        let py = position.y as u32;
        proof {
            assert(size.x * size.y <= tw * th) by (nonlinear_arith)
                requires
                    size.x <= tw,
                    size.y <= th,
            ;
        }
        assert(self.font_texture@ =~= atlas_placed_upto(tex0, tw as int, position, size, entry.data@, 0, 0));
        let mut y: u32 = 0;
        while y < size.y
            invariant
                self.layout_ok(),
                self.font_texture_size == tex_size,
                self.glyph_cache == old(self).glyph_cache,
                self.packer == old(self).packer,
                self.modified == old(self).modified,
                tex0 == old(self).font_texture@,
                tw == tex_size.x,
                th == tex_size.y,
                size == entry.size,
                position == entry.position,
                px == position.x,
                py == position.y,
                glyph_fits(position, size, tex_size),
                entry.data@.len() >= size.x * size.y,
                size.x * size.y <= tw * th,
                y <= size.y,
                self.font_texture@ == atlas_placed_upto(tex0, tw as int, position, size, entry.data@, y as int, 0),
            decreases size.y - y,
        {
            let mut x: u32 = 0;
            while x < size.x
                invariant
                    self.layout_ok(),
                    self.font_texture_size == tex_size,
                    self.glyph_cache == old(self).glyph_cache,
                    self.packer == old(self).packer,
                    self.modified == old(self).modified,
                    tex0 == old(self).font_texture@,
                    tw == tex_size.x,
                    th == tex_size.y,
                    size == entry.size,
                    position == entry.position,
                    px == position.x,
                    py == position.y,
                    glyph_fits(position, size, tex_size),
                    entry.data@.len() >= size.x * size.y,
                    size.x * size.y <= tw * th,
                    y < size.y,
                    x <= size.x,
                    self.font_texture@ == atlas_placed_upto(tex0, tw as int, position, size, entry.data@, y as int, x as int),
                decreases size.x - x,
            {
                proof {
                    assert(size.x * y + x < size.x * size.y) by (nonlinear_arith)
                        requires
                            x < size.x,
                            y < size.y,
                    ;
                    assert(tw * (y + py) + (x + px) < tw * th) by (nonlinear_arith)
                        requires
                            y + py < th,
                            x + px < tw,
                    ;
                }
                let src = (size.x * y + x) as usize;
                let pixel = (tw * (y + py) + (x + px)) as usize;
                let dst = pixel * 4;
                let alpha = entry.data[src];
                let ghost before = self.font_texture@;
                self.font_texture.set(dst, 255u8);
                self.font_texture.set(dst + 1, 255u8);
                self.font_texture.set(dst + 2, 255u8);
                self.font_texture.set(dst + 3, alpha);
                proof {
                    let target = atlas_placed_upto(tex0, tw as int, position, size, entry.data@, y as int, x + 1);
                    assert forall|i: int| 0 <= i < self.font_texture@.len() implies self.font_texture@[i] == target[i] by {
                        lemma_byte_pixel(i, tw as int);
                        let r = (i / 4) / (tw as int);
                        let c = (i / 4) % (tw as int);
                        if r == py + y && c == px + x {
                            assert(i / 4 == pixel);
                            assert(dst <= i < dst + 4);
                        } else {
                            if dst <= i < dst + 4 {
                                lemma_pixel_bytes(i, tw as int, py + y, px + x);
                            }
                            assert(self.font_texture@[i] == before[i]);
                        }
                    }
                    assert(self.font_texture@ =~= target);
                }
                x = x + 1;
            }
            assert(atlas_placed_upto(tex0, tw as int, position, size, entry.data@, y as int, size.x as int)
                =~= atlas_placed_upto(tex0, tw as int, position, size, entry.data@, y + 1, 0));
            y = y + 1;
        }
    }
}


impl Default for FontTextureManager {
    /// A 1024 by 1024 atlas.
    fn default() -> (ftm: Self)
        ensures
            ftm.wf(),
            ftm.texture_size() == (UVec2 { x: 1024, y: 1024 }),
            ftm.texture() == Seq::new(1024 * 1024 * 4, |i: int| 0u8),
            ftm.cache() =~= Map::empty(),
            !ftm.is_modified(),
    {
        Self::new(UVec2 { x: 1024, y: 1024 })
    }
}

// ---------------------------------------------------------------------------
// laws of the atlas

/// A glyph is rendered once: after a lookup of `key` has produced a glyph, a second lookup
/// of the same key returns the same glyph and leaves the cache, the atlas and the
/// modified flag as they were.
pub proof fn lemma_glyph_lookup_is_cached(
    first: FontTextureManager,
    second: FontTextureManager,
    third: FontTextureManager,
    key: GlyphKey,
    source: Seq<u8>,
    e1: Arc<GlyphCacheEntry>,
    r2: Option<Arc<GlyphCacheEntry>>,
)
    requires
        glyph_outcome(first, second, key, source, Some(e1)),
        glyph_outcome(second, third, key, source, r2),
    ensures
        r2 == Some(e1),
        third.cache() == second.cache(),
        third.texture() == second.texture(),
        third.is_modified() == second.is_modified(),
{
    assert(second.cache().contains_key(key));
}

/// Every cached glyph can be read back from the atlas: it lies inside the atlas, its bitmap
/// has one byte per pixel, and each pixel of its rectangle is opaque white with the glyph's
/// coverage as alpha.
pub proof fn lemma_cached_glyph_is_shown(ftm: FontTextureManager, key: GlyphKey)
    requires
        ftm.wf(),
        ftm.cache().contains_key(key),
    ensures
        glyph_fits(ftm.cache()[key].position, ftm.cache()[key].size, ftm.texture_size()),
        ftm.cache()[key].data@.len() == ftm.cache()[key].size.x * ftm.cache()[key].size.y,
        atlas_shows(ftm.texture(), ftm.texture_size().x as int, *ftm.cache()[key]),
{
    assert(ftm.holds_glyph(*ftm.cache()[key]));
}

/// No two cached glyphs share a pixel of the atlas.
pub proof fn lemma_cached_glyphs_do_not_overlap(ftm: FontTextureManager, k1: GlyphKey, k2: GlyphKey)
    requires
        ftm.wf(),
        ftm.cache().contains_key(k1),
        ftm.cache().contains_key(k2),
        k1 != k2,
    ensures
        rects_disjoint(glyph_rect(*ftm.cache()[k1]), glyph_rect(*ftm.cache()[k2])),
{
}

/// Placing a glyph colours exactly its rectangle: pixel (`x`, `y`) of the glyph, at
/// (`pos.x + x`, `pos.y + y`) in the atlas, becomes opaque white with the glyph's coverage
/// as alpha, and every byte outside the glyph's pixels keeps its value.
pub proof fn lemma_atlas_with_glyph_pixels(tex: Seq<u8>, tex_w: int, pos: IVec2, size: UVec2, data: Seq<u8>)
    requires
        0 < tex_w,
        0 <= pos.x,
        0 <= pos.y,
        pos.x + size.x <= tex_w,
        tex.len() % 4 == 0,
    ensures
        atlas_with_glyph(tex, tex_w, pos, size, data).len() == tex.len(),
        forall|x: int, y: int, c: int|
            0 <= x < size.x && 0 <= y < size.y && 0 <= c < 4
                && 4 * (tex_w * (pos.y + y) + pos.x + x) + c < tex.len() ==>
                #[trigger] atlas_with_glyph(tex, tex_w, pos, size, data)[4 * (tex_w * (pos.y + y) + pos.x + x) + c]
                    == if c == 3 { data[size.x * y + x] } else { 255u8 },
        forall|i: int|
            0 <= i < tex.len() && !(exists|x: int, y: int|
                0 <= x < size.x && 0 <= y < size.y && #[trigger] (tex_w * (pos.y + y) + pos.x + x) == i / 4) ==>
                #[trigger] atlas_with_glyph(tex, tex_w, pos, size, data)[i] == tex[i],
{
    let placed = atlas_with_glyph(tex, tex_w, pos, size, data);
    assert forall|x: int, y: int, c: int|
        0 <= x < size.x && 0 <= y < size.y && 0 <= c < 4
            && 4 * (tex_w * (pos.y + y) + pos.x + x) + c < tex.len() implies
            #[trigger] placed[4 * (tex_w * (pos.y + y) + pos.x + x) + c]
                == if c == 3 { data[size.x * y + x] } else { 255u8 } by {
        let i = 4 * (tex_w * (pos.y + y) + pos.x + x) + c;
        assert(0 <= tex_w * (pos.y + y)) by (nonlinear_arith)
            requires
                0 < tex_w,
                0 <= pos.y + y,
        ;
        lemma_pixel_bytes(i, tex_w, pos.y + y, pos.x + x);
    }
    assert forall|i: int|
        0 <= i < tex.len() && !(exists|x: int, y: int|
            0 <= x < size.x && 0 <= y < size.y && #[trigger] (tex_w * (pos.y + y) + pos.x + x) == i / 4) implies
            #[trigger] placed[i] == tex[i] by {
        lemma_byte_pixel(i, tex_w);
        let row = (i / 4) / tex_w - pos.y;
        let col = (i / 4) % tex_w - pos.x;
        if 0 <= row < size.y && 0 <= col < size.x {
            assert(tex_w * (pos.y + row) + pos.x + col == i / 4);
        }
    }
}

/// A font is found under the handle that adding it returned.
pub proof fn lemma_added_font_is_found(before: Seq<ParsedFont>, after: Seq<ParsedFont>, font: ParsedFont, handle: FontHandle)
    requires
        after == before.push(font),
        handle.index() == before.len(),
    ensures
        handle.index() < after.len(),
        after[handle.index() as int] == font,
{
}

// ---------------------------------------------------------------------------
// the text renderer

/// Fonts plus the atlas that their glyphs are rendered into.
pub struct TextRenderer {
    fm: FontManager,
    ftm: FontTextureManager,
}

impl TextRenderer {
    /// The registered fonts.
    pub closed spec fn fonts(&self) -> Seq<ParsedFont> {
        self.fm@
    }

    /// The glyph atlas.
    pub closed spec fn atlas(&self) -> FontTextureManager {
        self.ftm
    }

    /// The atlas is well formed.
    pub open spec fn wf(&self) -> bool {
        self.atlas().wf()
    }

    /// No fonts and an empty 1024 by 1024 atlas.
    pub fn new() -> (tr: Self)
        ensures
            tr.wf(),
            tr.fonts() == Seq::<ParsedFont>::empty(),
            tr.atlas().texture_size() == (UVec2 { x: 1024, y: 1024 }),
            tr.atlas().texture() == Seq::new(1024 * 1024 * 4, |i: int| 0u8),
            tr.atlas().cache() =~= Map::empty(),
            !tr.atlas().is_modified(),
    {
        TextRenderer { fm: FontManager::new(), ftm: FontTextureManager::default() }
    }

    /// Parse `font` with fontdue and register it. The bytes must be a font fontdue accepts.
    pub fn add_font_from_bytes(&mut self, font: &[u8]) -> (handle: FontHandle)
        requires
            font_parses(font@),
        ensures
            final(self).fonts().len() == old(self).fonts().len() + 1,
            final(self).fonts().take(old(self).fonts().len() as int) == old(self).fonts(),
            final(self).fonts()[old(self).fonts().len() as int].source() == font@,
            handle.index() == old(self).fonts().len(),
            final(self).atlas() == old(self).atlas(),
    {
        match font_from_bytes(font) {
            Some(parsed) => self.fm.add_font(parsed),
            None => {
                assert(false);
                FontHandle(0)
            },
        }
    }

    /// Register `font` if fontdue accepts it; `None` (and no change) if it does not.
    pub fn try_add_font_from_bytes(&mut self, font: &[u8]) -> (handle: Option<FontHandle>)
        ensures
            handle is Some <==> font_parses(font@),
            final(self).atlas() == old(self).atlas(),
            (match handle {
                Some(h) => {
                    &&& final(self).fonts().len() == old(self).fonts().len() + 1
                    &&& final(self).fonts().take(old(self).fonts().len() as int) == old(self).fonts()
                    &&& final(self).fonts()[old(self).fonts().len() as int].source() == font@
                    &&& h.index() == old(self).fonts().len()
                },
                None => final(self).fonts() == old(self).fonts(),
            }),
    {
        if font_from_bytes(font).is_some() {
            Some(self.add_font_from_bytes(font))
        } else {
            None
        }
    }

    /// How many fonts are registered.
    pub fn font_count(&self) -> (count: usize)
        ensures
            count == self.fonts().len(),
    {
        self.fm.fonts.len()
    }

    /// Start a frame: the atlas is no longer marked modified.
    pub fn reset_frame(&mut self)
        requires
            old(self).wf(),
        ensures
            final(self).wf(),
            final(self).fonts() == old(self).fonts(),
            !final(self).atlas().is_modified(),
            final(self).atlas().cache() == old(self).atlas().cache(),
            final(self).atlas().texture() == old(self).atlas().texture(),
            final(self).atlas().texture_size() == old(self).atlas().texture_size(),
    {
        self.ftm.reset_modified();
    }

    /// The atlas as the renderer sees it.
    pub fn font_texture(&self) -> (info: FontTextureInfo<'_>)
        ensures
            info.modified == self.atlas().is_modified(),
            info.data@ == self.atlas().texture(),
            info.size == self.atlas().texture_size(),
    {
        self.ftm.info()
    }

    /// The glyph of `character` at `size` in the font `font_handle`, from the cache or
    /// freshly rendered into the atlas (see [`glyph_outcome`]).
    pub fn glyph(&mut self, font_handle: FontHandle, character: char, size: u8) -> (entry: Option<Arc<GlyphCacheEntry>>)
        requires
            old(self).wf(),
            font_handle.index() < old(self).fonts().len(),
        ensures
            final(self).wf(),
            final(self).fonts() == old(self).fonts(),
            glyph_outcome(
                old(self).atlas(),
                final(self).atlas(),
                (font_handle.index() as usize, character, size),
                old(self).fonts()[font_handle.index() as int].source(),
                entry,
            ),
    {
        self.ftm.glyph(&self.fm, font_handle, character, size)
    }
}

impl Default for TextRenderer {
    fn default() -> (tr: Self)
        ensures
            tr.wf(),
            tr.fonts() == Seq::<ParsedFont>::empty(),
            !tr.atlas().is_modified(),
    {
        Self::new()
    }
}

} // verus!
