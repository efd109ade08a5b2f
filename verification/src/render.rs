//! The integer parts of drawing: which keys light up, where a glyph pixel
//! lands in the pixmap, and how a glyph pixel is blended over what is there.

use vstd::prelude::*;
use std::collections::HashSet;
use tiny_skia::PremultipliedColorU8;
use fontdue::{Font, FontSettings};
use crate::layout::Key;

verus! {

broadcast use vstd::std_specs::hash::group_hash_axioms;

#[verifier::external_type_specification]
#[verifier::external_body]
pub struct ExPremultipliedColorU8(PremultipliedColorU8);

/// A premultiplied pixel colour as tiny-skia holds it, together with the
/// red, green, blue and alpha channels it was made from.
pub struct PixelColor {
    color: PremultipliedColorU8,
    channels: Ghost<(u8, u8, u8, u8)>,
}

impl PixelColor {
    /// The red, green, blue and alpha channels of the colour.
    pub closed spec fn model(&self) -> (u8, u8, u8, u8) {
        self.channels@
    }

    /// The colour, for drawing into a pixmap; its channels are those that
    /// `channels` reads.
    pub fn color(&self) -> (c: PremultipliedColorU8) {
        self.color
    }

    /// Calls `PremultipliedColorU8::red`, which returns the red channel the
    /// colour stores.
    #[verifier::external_body]
    fn red(&self) -> (r: u8)
        ensures
            r == self.model().0,
    {
        self.color.red()
    }

    /// Calls `PremultipliedColorU8::green`, which returns the green channel
    /// the colour stores.
    #[verifier::external_body]
    fn green(&self) -> (g: u8)
        ensures
            g == self.model().1,
    {
        self.color.green()
    }

    /// Calls `PremultipliedColorU8::blue`, which returns the blue channel the
    /// colour stores.
    #[verifier::external_body]
    fn blue(&self) -> (b: u8)
        ensures
            b == self.model().2,
    {
        self.color.blue()
    }

    /// Calls `PremultipliedColorU8::alpha`, which returns the alpha channel
    /// the colour stores.
    #[verifier::external_body]
    fn alpha(&self) -> (a: u8)
        ensures
            a == self.model().3,
    {
        self.color.alpha()
    }

    /// The red, green, blue and alpha channels of the colour, as tiny-skia
    /// holds them.
    pub fn channels(&self) -> (r: (u8, u8, u8, u8))
        ensures
            r == self.model(),
    {
        (self.red(), self.green(), self.blue(), self.alpha())
    }
}

/// Calls `tiny_skia::PremultipliedColorU8::from_rgba`, which gives a colour
/// exactly when no colour channel exceeds the alpha channel, and then holds
/// the four channels as given.
#[verifier::external_body]
fn premultiplied_from_rgba(r: u8, g: u8, b: u8, a: u8) -> (c: Option<PixelColor>)
    ensures
        c is Some <==> (r <= a && g <= a && b <= a),
        c matches Some(col) ==> col.model() == (r, g, b, a),
{
    match PremultipliedColorU8::from_rgba(r, g, b, a) {
        Some(color) => Some(PixelColor { color, channels: Ghost((r, g, b, a)) }),
        None => None,
    }
}

#[verifier::external_type_specification]
#[verifier::external_body]
pub struct ExFont(Font);

/// Whether `fontdue::Font::from_bytes`, with the default settings, accepts
/// the bytes `data` as a font.
pub uninterp spec fn font_parses(data: Seq<u8>) -> bool;

/// Calls `fontdue::Font::from_bytes` with `FontSettings::default()`. The
/// font it gives is opaque here; whether it gives one depends on the bytes
/// alone and is named `font_parses`.
#[verifier::external_body]
fn font_from_bytes(data: &[u8]) -> (r: Option<Font>)
    ensures
        r is Some <==> font_parses(data@),
{
    Font::from_bytes(data, FontSettings::default()).ok()
}

/// The bytes of the first of `candidates` that could be read, if any.
pub open spec fn first_readable(candidates: Seq<Option<Vec<u8>>>) -> Option<Seq<u8>>
    decreases candidates.len(),
{
    if candidates.len() == 0 {
        None
    } else {
        match candidates[0] {
            Some(data) => Some(data@),
            None => first_readable(candidates.drop_first()),
        }
    }
}

/// The first readable candidate is the one read: when `j` is the first
/// index holding bytes, those are the bytes; when none holds bytes, there
/// are none. Later candidates are never consulted.
pub proof fn lemma_first_readable_is_the_first(candidates: Seq<Option<Vec<u8>>>, j: int)
    requires
        0 <= j < candidates.len(),
        candidates[j] is Some,
        forall|i: int| 0 <= i < j ==> candidates[i] is None,
    ensures
        first_readable(candidates) == Some(candidates[j]->0@),
    decreases j,
{
    if j > 0 {
        let rest = candidates.drop_first();
        assert forall|i: int| 0 <= i < j - 1 implies rest[i] is None by {
            assert(rest[i] == candidates[i + 1]);
        }
        assert(rest[j - 1] == candidates[j]);
        lemma_first_readable_is_the_first(rest, j - 1);
    }
}

/// When no candidate could be read, there are no bytes to parse.
pub proof fn lemma_nothing_readable(candidates: Seq<Option<Vec<u8>>>)
    requires
        forall|i: int| 0 <= i < candidates.len() ==> candidates[i] is None,
    ensures
        first_readable(candidates) is None,
    decreases candidates.len(),
{
    if candidates.len() > 0 {
        let rest = candidates.drop_first();
        assert forall|i: int| 0 <= i < rest.len() implies rest[i] is None by {
            assert(rest[i] == candidates[i + 1]);
        }
        lemma_nothing_readable(rest);
    }
}

/// The font parsed from the first of `candidates` (the contents of the
/// font files tried in order, `None` where a file could not be read), or
/// `None` when no file could be read. The inner `None` is a first readable
/// file that is not a font.
pub fn first_font(candidates: &Vec<Option<Vec<u8>>>) -> (r: Option<Option<Font>>)
    ensures
        r is None <==> first_readable(candidates@) is None,
        r matches Some(f) ==> (f is Some <==> font_parses(first_readable(candidates@)->0)),
{
    let mut i: usize = 0;
    assert(candidates@.subrange(0, candidates@.len() as int) =~= candidates@);
    while i < candidates.len()
        invariant
            0 <= i <= candidates.len(),
            first_readable(candidates@) == first_readable(
                candidates@.subrange(i as int, candidates@.len() as int),
            ),
        decreases candidates.len() - i,
    {
        let ghost rest = candidates@.subrange(i as int, candidates@.len() as int);
        assert(rest[0] == candidates@[i as int]);
        assert(rest.drop_first() =~= candidates@.subrange(i + 1, candidates@.len() as int));
        match &candidates[i] {
            Some(data) => {
                return Some(font_from_bytes(data.as_slice()));
            },
            None => {},
        }
        i = i + 1;
    }
    assert(candidates@.subrange(i as int, candidates@.len() as int).len() == 0);
    None
}

/// Whether a key is drawn as held: it has a code (gaps have none) and that
/// code is held.
pub fn key_is_pressed(key: &Key, pressed_keys: &HashSet<u16>) -> (r: bool)
    ensures
        r == (key.code != 0 && pressed_keys@.contains(key.code)),
{
    key.code != 0 && pressed_keys.contains(&key.code)
}

/// Whether `(x, y)` lies inside a `width` by `height` pixmap.
pub open spec fn inside(x: i32, y: i32, width: u32, height: u32) -> bool {
    0 <= x < width && 0 <= y < height
}

/// The index in a `width` by `height` pixmap of the pixel at `(x, y)`,
/// or `None` when that pixel lies outside it. The index is computed in
/// `u32`, so a pixel inside the pixmap must have an index that fits.
pub fn pixel_index(x: i32, y: i32, width: u32, height: u32) -> (r: Option<usize>)
    requires
        inside(x, y, width, height) ==> y * width + x <= u32::MAX,
    ensures
        match r {
            Some(i) => inside(x, y, width, height) && i == y * width + x,
            None => !inside(x, y, width, height),
        },
{
    if x < 0 || y < 0 || x as u32 >= width || y as u32 >= height {
        return None;
    }
    let xu: u32 = x as u32;
    let yu: u32 = y as u32;
    proof {
        assert(yu * width <= yu * width + xu);
    }
    Some((yu * width + xu) as usize)
}

/// One channel of `source` drawn with coverage `coverage` (out of 255) over
/// a premultiplied destination channel `dest`.
pub open spec fn blend_value(source: int, coverage: int, dest: int) -> int {
    source * coverage / 255 + dest * (255 - coverage) / 255
}

/// Whether a pixel's colour channels do not exceed its alpha.
pub open spec fn is_premultiplied(p: (u8, u8, u8, u8)) -> bool {
    p.0 <= p.3 && p.1 <= p.3 && p.2 <= p.3
}

/// The opacity (out of 255) with which a glyph pixel is drawn: its
/// coverage scaled by the alpha of the text colour.
pub open spec fn glyph_opacity(coverage: u8, alpha: u8) -> int {
    coverage as int * alpha as int / 255
}

/// The pixel `dest` with a glyph pixel of colour `text` (red, green, blue,
/// alpha) and coverage `coverage` drawn over it, with opacity
/// `glyph_opacity(coverage, text.3)`.
pub open spec fn blended(text: (u8, u8, u8, u8), coverage: u8, dest: (u8, u8, u8, u8)) -> (
    int,
    int,
    int,
    int,
) {
    let o = glyph_opacity(coverage, text.3);
    (
        blend_value(text.0 as int, o, dest.0 as int),
        blend_value(text.1 as int, o, dest.1 as int),
        blend_value(text.2 as int, o, dest.2 as int),
        blend_value(255, o, dest.3 as int),
    )
}

proof fn lemma_glyph_opacity_bounds(coverage: u8, alpha: u8)
    ensures
        0 <= glyph_opacity(coverage, alpha) <= 255,
        glyph_opacity(coverage, 255) == coverage,
        glyph_opacity(coverage, 0) == 0,
{
    assert(0 <= coverage as int * alpha as int / 255 <= 255) by (nonlinear_arith)
        requires
            0 <= coverage <= 255,
            0 <= alpha <= 255,
    ;
    assert(coverage as int * 255 / 255 == coverage as int);
}

proof fn lemma_blend_value_bounds(source: int, coverage: int, dest: int)
    requires
        0 <= source <= 255,
        0 <= coverage <= 255,
        0 <= dest <= 255,
    ensures
        0 <= source * coverage / 255 <= coverage,
        0 <= dest * (255 - coverage) / 255 <= 255 - coverage,
        0 <= blend_value(source, coverage, dest) <= 255,
{
    assert(0 <= source * coverage / 255 <= coverage) by (nonlinear_arith)
        requires
            0 <= source <= 255,
            0 <= coverage <= 255,
    ;
    assert(0 <= dest * (255 - coverage) / 255 <= 255 - coverage) by (nonlinear_arith)
        requires
            0 <= dest <= 255,
            0 <= coverage <= 255,
    ;
}

/// One blended channel.
fn blend_channel(source: u8, opacity: u8, dest: u8) -> (r: u8)
    ensures
        r == blend_value(source as int, opacity as int, dest as int),
{
    proof {
        lemma_blend_value_bounds(source as int, opacity as int, dest as int);
    }
    let a: u32 = opacity as u32;
    let src: u32 = source as u32 * a / 255;
    let inv: u32 = 255 - a;
    (src + dest as u32 * inv / 255) as u8
}

/// The pixel `dest` with a glyph pixel of colour `text` (red, green, blue,
/// alpha) and coverage `coverage` drawn over it. The glyph pixel's opacity
/// is `coverage * alpha / 255`; each colour channel becomes
/// `text * opacity / 255 + dest * (255 - opacity) / 255`, and the alpha
/// channel becomes `opacity + dest_alpha * (255 - opacity) / 255`.
pub fn blend_pixel(text: (u8, u8, u8, u8), coverage: u8, dest: (u8, u8, u8, u8)) -> (r: (
    u8,
    u8,
    u8,
    u8,
))
    ensures
        (r.0 as int, r.1 as int, r.2 as int, r.3 as int) == blended(text, coverage, dest),
{
    proof {
        lemma_glyph_opacity_bounds(coverage, text.3);
    }
    let opacity: u8 = (coverage as u32 * text.3 as u32 / 255) as u8;
    (
        blend_channel(text.0, opacity, dest.0),
        blend_channel(text.1, opacity, dest.1),
        blend_channel(text.2, opacity, dest.2),
        blend_channel(255, opacity, dest.3),
    )
}

/// The premultiplied colour of `dest` with a glyph pixel drawn over it (the
/// channels of `blend_pixel`), or `None` when the blended channels are not a
/// premultiplied colour (the caller then keeps `dest`).
pub fn blend_onto(text: (u8, u8, u8, u8), coverage: u8, dest: (u8, u8, u8, u8)) -> (r: Option<
    PixelColor,
>)
    ensures
        r is Some <==> ({
            let b = blended(text, coverage, dest);
            b.0 <= b.3 && b.1 <= b.3 && b.2 <= b.3
        }),
        r matches Some(c) ==> ({
            let m = c.model();
            (m.0 as int, m.1 as int, m.2 as int, m.3 as int) == blended(text, coverage, dest)
        }),
{
    let (r, g, b, a) = blend_pixel(text, coverage, dest);
    premultiplied_from_rgba(r, g, b, a)
}

/// Drawing a glyph pixel over a premultiplied pixel gives a premultiplied
/// pixel, so the blend is never dropped.
pub proof fn lemma_blend_keeps_premultiplied(text: (u8, u8, u8, u8), coverage: u8, dest: (
    u8,
    u8,
    u8,
    u8,
))
    requires
        is_premultiplied(dest),
    ensures
        ({
            let b = blended(text, coverage, dest);
            b.0 <= b.3 && b.1 <= b.3 && b.2 <= b.3
        }),
{
    lemma_glyph_opacity_bounds(coverage, text.3);
    let a = glyph_opacity(coverage, text.3);
    lemma_blend_value_bounds(text.0 as int, a, dest.0 as int);
    lemma_blend_value_bounds(text.1 as int, a, dest.1 as int);
    lemma_blend_value_bounds(text.2 as int, a, dest.2 as int);
    lemma_blend_value_bounds(255, a, dest.3 as int);
    assert(255 * a / 255 == a);
    assert(dest.0 as int * (255 - a) / 255 <= dest.3 as int * (255 - a) / 255) by (nonlinear_arith)
        requires
            dest.0 <= dest.3,
            0 <= a <= 255,
    ;
    assert(dest.1 as int * (255 - a) / 255 <= dest.3 as int * (255 - a) / 255) by (nonlinear_arith)
        requires
            dest.1 <= dest.3,
            0 <= a <= 255,
    ;
    assert(dest.2 as int * (255 - a) / 255 <= dest.3 as int * (255 - a) / 255) by (nonlinear_arith)
        requires
            dest.2 <= dest.3,
            0 <= a <= 255,
    ;
}

/// An opaque text colour at full coverage replaces the destination with
/// the opaque text colour.
pub proof fn lemma_full_coverage_is_opaque(text: (u8, u8, u8, u8), dest: (u8, u8, u8, u8))
    requires
        text.3 == 255,
    ensures
        blended(text, 255, dest) == (text.0 as int, text.1 as int, text.2 as int, 255int),
{
    lemma_glyph_opacity_bounds(255, 255);
    assert(text.0 as int * 255 / 255 == text.0 as int);
    assert(text.1 as int * 255 / 255 == text.1 as int);
    assert(text.2 as int * 255 / 255 == text.2 as int);
}

/// A fully transparent text colour draws nothing: the destination pixel
/// stays as it was, whatever the coverage.
pub proof fn lemma_transparent_text_draws_nothing(text: (u8, u8, u8, u8), coverage: u8, dest: (
    u8,
    u8,
    u8,
    u8,
))
    requires
        text.3 == 0,
    ensures
        blended(text, coverage, dest) == (dest.0 as int, dest.1 as int, dest.2 as int, dest.3 as int),
{
    lemma_glyph_opacity_bounds(coverage, 0);
    assert(dest.0 as int * 255 / 255 == dest.0 as int);
    assert(dest.1 as int * 255 / 255 == dest.1 as int);
    assert(dest.2 as int * 255 / 255 == dest.2 as int);
    assert(dest.3 as int * 255 / 255 == dest.3 as int);
}

} // verus!
