//! Glyphs as the compositor takes them: already laid out and rasterised, each
//! a list of coverage samples relative to the glyph's pixel box.

use vstd::prelude::*;

verus! {

/// The top-left corner of a glyph's pixel bounding box, in frame coordinates.
/// It may lie left of or above the frame.
#[derive(Clone, Copy, Debug, PartialEq, Eq, Structural)]
pub struct Origin {
    pub x: i32,
    pub y: i32,
}

/// One coverage sample of a glyph: a place relative to the glyph's origin and
/// the opacity of the ink there, 0 for none and 255 for full coverage.
#[derive(Clone, Copy, Debug, PartialEq, Eq, Structural)]
pub struct Sample {
    pub x: u32,
    pub y: u32,
    pub alpha: u8,
}

/// A laid-out glyph. A glyph without outline, such as a space, has no pixel
/// box and therefore no origin.
#[derive(Clone, Debug)]
pub struct Glyph {
    pub origin: Option<Origin>,
    pub samples: Vec<Sample>,
}

/// What a `Glyph` stands for: its origin and its samples in the order in
/// which they are painted.
pub struct GlyphView {
    pub origin: Option<Origin>,
    pub samples: Seq<Sample>,
}

impl View for Glyph {
    type V = GlyphView;

    open spec fn view(&self) -> GlyphView {
        GlyphView { origin: self.origin, samples: self.samples@ }
    }
}

/// What a run of glyphs stands for, glyph by glyph.
pub open spec fn glyph_views(glyphs: Seq<Glyph>) -> Seq<GlyphView> {
    glyphs.map_values(|glyph: Glyph| glyph@)
}

/// Whether column `x` of row `y` is a pixel of a frame of the given size.
pub open spec fn inside(x: int, y: int, width: nat, height: nat) -> bool {
    0 <= x < width && 0 <= y < height
}

/// Whether a sample of a glyph at `origin` falls on column `x` of row `y`.
/// The sum is the mathematical one: a sample far to the right never wraps
/// round to the left.
pub open spec fn lands_on(origin: Origin, sample: Sample, x: int, y: int) -> bool {
    origin.x + sample.x == x && origin.y + sample.y == y
}

/// Where in a frame of the given size a sample of a glyph at `origin` falls:
/// the column and the row, or `None` when the place lies outside the frame,
/// in which case the sample is dropped.
pub fn place(origin: Origin, sample: Sample, width: u32, height: u32) -> (at: Option<(u32, u32)>)
    ensures
        inside(origin.x + sample.x, origin.y + sample.y, width as nat, height as nat) <==> at.is_some(),
        at matches Some((x, y)) ==> lands_on(origin, sample, x as int, y as int),
{
    let x: i64 = origin.x as i64 + sample.x as i64;
    let y: i64 = origin.y as i64 + sample.y as i64;
    if 0 <= x && x < width as i64 && 0 <= y && y < height as i64 {
        Some((x as u32, y as u32))
    } else {
        None
    }
}

} // verus!
