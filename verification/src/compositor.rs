//! The text compositor: paints the coverage samples of laid-out glyphs on a
//! transparent layer and copies the layer over the frame.

use vstd::prelude::*;
use vstd::arithmetic::div_mod::{lemma_fundamental_div_mod, lemma_fundamental_div_mod_converse};
use crate::color::Rgba8;
use crate::frame::{blank, clear_frame, frame_holds, pixel_bytes, write_pixels};
use crate::glyph::{glyph_views, inside, lands_on, place, Glyph, GlyphView, Origin, Sample};
use crate::layer::{layer_pixels, layer_size, new_layer, read_pixels, set_pixel, Layer};

verus! {

/// The opacity that the samples of one glyph leave at column `x` of row `y`:
/// that of the last sample that lands there, `None` if none does.
pub open spec fn samples_alpha_at(origin: Origin, samples: Seq<Sample>, x: int, y: int) -> Option<u8>
    decreases samples.len(),
{
    if samples.len() == 0 {
        None
    } else if lands_on(origin, samples.last(), x, y) {
        Some(samples.last().alpha)
    } else {
        samples_alpha_at(origin, samples.drop_last(), x, y)
    }
}

/// The opacity that one glyph leaves at a place. A glyph without origin
/// leaves none anywhere.
pub open spec fn glyph_alpha_at(glyph: GlyphView, x: int, y: int) -> Option<u8> {
    match glyph.origin {
        Some(origin) => samples_alpha_at(origin, glyph.samples, x, y),
        None => None,
    }
}

/// The opacity that a run of glyphs leaves at a place: later glyphs paint
/// over earlier ones, so the last glyph with a sample there decides.
pub open spec fn alpha_at(glyphs: Seq<GlyphView>, x: int, y: int) -> Option<u8>
    decreases glyphs.len(),
{
    if glyphs.len() == 0 {
        None
    } else {
        match glyph_alpha_at(glyphs.last(), x, y) {
            Some(alpha) => Some(alpha),
            None => alpha_at(glyphs.drop_last(), x, y),
        }
    }
}

/// The pixel for an opacity: white ink where a sample landed, transparent
/// black where none did.
pub open spec fn pixel_of(alpha: Option<u8>) -> Rgba8 {
    match alpha {
        Some(a) => Rgba8::spec_ink(a),
        None => Rgba8::spec_transparent(),
    }
}

/// The layer that a run of glyphs paints: `width * height` pixels, row after
/// row, the pixel at index `i` being column `i % width` of row `i / width`.
pub open spec fn text_layer(glyphs: Seq<GlyphView>, width: nat, height: nat) -> Seq<Rgba8> {
    Seq::new(
        width * height,
        |i: int| pixel_of(alpha_at(glyphs, i % (width as int), i / (width as int))),
    )
}

/// The frame after the glyphs were drawn over it: the bytes of the text
/// layer, then whatever the frame held behind them.
pub open spec fn drawn_frame(frame: Seq<u8>, glyphs: Seq<GlyphView>, width: nat, height: nat) -> Seq<u8> {
    pixel_bytes(text_layer(glyphs, width, height)) + frame.skip((4 * (width * height)) as int)
}

/// The frame after a redraw: cleared, then drawn over.
pub open spec fn rendered_frame(frame: Seq<u8>, glyphs: Seq<GlyphView>, width: nat, height: nat) -> Seq<u8> {
    drawn_frame(blank(frame.len()), glyphs, width, height)
}

/// A layer after one more sample: ink where the sample lands, the old pixel
/// everywhere else.
spec fn with_sample(pixels: Seq<Rgba8>, origin: Origin, sample: Sample, width: nat) -> Seq<Rgba8> {
    Seq::new(
        pixels.len(),
        |i: int|
            if lands_on(origin, sample, i % (width as int), i / (width as int)) {
                Rgba8::spec_ink(sample.alpha)
            } else {
                pixels[i]
            },
    )
}

/// Index `i` of a `width * height` layer is a place inside it.
proof fn lemma_index_inside(i: int, width: nat, height: nat)
    requires
        0 <= i < width * height,
    ensures
        inside(i % (width as int), i / (width as int), width, height),
{
    let w = width as int;
    assert(w > 0) by (nonlinear_arith)
        requires
            0 <= i < w * height,
            w >= 0,
    ;
    lemma_fundamental_div_mod(i, w);
    let q = i / w;
    let r = i % w;
    assert(0 <= q < height) by (nonlinear_arith)
        requires
            i == w * q + r,
            0 <= r < w,
            0 <= i < w * height,
    ;
}

/// Column `x` of row `y` inside the layer has an index in the layer.
proof fn lemma_place_has_index(x: int, y: int, width: nat, height: nat)
    requires
        inside(x, y, width, height),
    ensures
        0 <= y * width + x < width * height,
{
    assert(0 <= y * width + x < width * height) by (nonlinear_arith)
        requires
            0 <= x < width,
            0 <= y < height,
    ;
}

/// Column `x` of row `y` inside the layer has index `y * width + x`, and no
/// other index.
proof fn lemma_index_of_place(x: int, y: int, i: int, width: nat, height: nat)
    requires
        inside(x, y, width, height),
    ensures
        (i % (width as int) == x && i / (width as int) == y) <==> i == y * width + x,
{
    let w = width as int;
    lemma_fundamental_div_mod(i, w);
    lemma_fundamental_div_mod_converse(y * w + x, w, y, x);
    assert(w * (i / w) == (i / w) * w) by (nonlinear_arith);
}

/// One more sample at the end of the last glyph changes the layer as
/// `with_sample` says.
proof fn lemma_sample_step(
    done: Seq<GlyphView>,
    origin: Origin,
    samples: Seq<Sample>,
    sample: Sample,
    width: nat,
    height: nat,
)
    ensures
        text_layer(
            done.push((GlyphView { origin: Some(origin), samples: samples.push(sample) })),
            width,
            height,
        ) == with_sample(
            text_layer(done.push((GlyphView { origin: Some(origin), samples })), width, height),
            origin,
            sample,
            width,
        ),
{
    let before = done.push(GlyphView { origin: Some(origin), samples });
    let after = done.push(GlyphView { origin: Some(origin), samples: samples.push(sample) });
    assert(before.drop_last() =~= done);
    assert(after.drop_last() =~= done);
    assert(samples.push(sample).drop_last() =~= samples);
    assert(text_layer(after, width, height) =~= with_sample(
        text_layer(before, width, height),
        origin,
        sample,
        width,
    ));
}

/// A glyph that has no samples yet, or no origin, leaves the layer as it is.
proof fn lemma_glyph_without_ink(done: Seq<GlyphView>, glyph: GlyphView, width: nat, height: nat)
    requires
        glyph.origin is None || glyph.samples.len() == 0,
    ensures
        text_layer(done.push(glyph), width, height) == text_layer(done, width, height),
{
    assert(done.push(glyph).drop_last() =~= done);
    assert(text_layer(done.push(glyph), width, height) =~= text_layer(done, width, height));
}

/// Paints one sample on the layer, or drops it when it falls outside.
fn paint_sample(layer: &mut Layer, origin: Origin, sample: Sample, width: u32, height: u32)
    requires
        layer_size(*old(layer)) == (width, height),
        layer_pixels(*old(layer)).len() == width * height,
    ensures
        layer_size(*final(layer)) == (width, height),
        layer_pixels(*final(layer)) == with_sample(
            layer_pixels(*old(layer)),
            origin,
            sample,
            width as nat,
        ),
{
    let ghost before = layer_pixels(*layer);
    match place(origin, sample, width, height) {
        Some((x, y)) => {
            set_pixel(layer, x, y, Rgba8::ink(sample.alpha));
            proof {
                let after = layer_pixels(*layer);
                let expected = with_sample(before, origin, sample, width as nat);
                lemma_place_has_index(x as int, y as int, width as nat, height as nat);
                assert forall|i: int| 0 <= i < before.len() implies #[trigger] after[i]
                    == expected[i] by {
                    lemma_index_of_place(x as int, y as int, i, width as nat, height as nat);
                }
                assert(after =~= expected);
            }
        },
        None => {
            proof {
                let expected = with_sample(before, origin, sample, width as nat);
                assert forall|i: int| 0 <= i < before.len() implies #[trigger] before[i]
                    == expected[i] by {
                    lemma_index_inside(i, width as nat, height as nat);
                }
                assert(before =~= expected);
            }
        },
    }
}

/// Paints the samples of one glyph, in their order, over what the glyphs
/// `done` have painted.
fn paint_glyph(
    layer: &mut Layer,
    glyph: &Glyph,
    width: u32,
    height: u32,
    Ghost(done): Ghost<Seq<GlyphView>>,
)
    requires
        layer_size(*old(layer)) == (width, height),
        layer_pixels(*old(layer)) == text_layer(done, width as nat, height as nat),
    ensures
        layer_size(*final(layer)) == (width, height),
        layer_pixels(*final(layer)) == text_layer(done.push(glyph@), width as nat, height as nat),
{
    match glyph.origin {
        Some(origin) => {
            let n: usize = glyph.samples.len();
            let mut k: usize = 0;
            proof {
                lemma_glyph_without_ink(
                    done,
                    GlyphView { origin: Some(origin), samples: glyph.samples@.take(0) },
                    width as nat,
                    height as nat,
                );
            }
            while k < n
                invariant
                    k <= n,
                    n == glyph.samples@.len(),
                    layer_size(*layer) == (width, height),
                    layer_pixels(*layer) == text_layer(
                        done.push(
                            GlyphView { origin: Some(origin), samples: glyph.samples@.take(k as int) },
                        ),
                        width as nat,
                        height as nat,
                    ),
                decreases n - k,
            {
                let sample: Sample = glyph.samples[k];
                proof {
                    lemma_sample_step(
                        done,
                        origin,
                        glyph.samples@.take(k as int),
                        sample,
                        width as nat,
                        height as nat,
                    );
                    assert(glyph.samples@.take(k as int).push(sample) =~= glyph.samples@.take(
                        k + 1,
                    ));
                }
                paint_sample(layer, origin, sample, width, height);
                k = k + 1;
            }
            assert(glyph.samples@.take(n as int) =~= glyph.samples@);
        },
        None => {
            proof {
                lemma_glyph_without_ink(done, glyph@, width as nat, height as nat);
            }
        },
    }
}

/// Draws glyphs over the first `width * height` pixels of a frame. Every one
/// of those pixels is overwritten, not blended: it becomes white ink with the
/// opacity of the last sample that lands on it, or transparent black where no
/// sample lands. Samples outside the frame are dropped. Bytes of the frame
/// behind the last pixel stay as they were.
pub fn draw_glyphs(frame: &mut [u8], glyphs: &[Glyph], width: u32, height: u32)
    requires
        frame_holds(old(frame)@.len(), width as nat, height as nat),
    ensures
        final(frame)@ == drawn_frame(
            old(frame)@,
            glyph_views(glyphs@),
            width as nat,
            height as nat,
        ),
{
    let mut layer = new_layer(width, height, Rgba8::transparent());
    let ghost views = glyph_views(glyphs@);
    assert(layer_pixels(layer) =~= text_layer(views.take(0), width as nat, height as nat));
    let n: usize = glyphs.len();
    let mut g: usize = 0;
    while g < n
        invariant
            g <= n,
            n == glyphs@.len(),
            views == glyph_views(glyphs@),
            layer_size(layer) == (width, height),
            layer_pixels(layer) == text_layer(views.take(g as int), width as nat, height as nat),
        decreases n - g,
    {
        paint_glyph(&mut layer, &glyphs[g], width, height, Ghost(views.take(g as int)));
        assert(views.take(g as int).push(glyphs@[g as int]@) =~= views.take(g + 1));
        g = g + 1;
    }
    assert(views.take(n as int) =~= views);
    let pixels = read_pixels(&layer);
    write_pixels(frame, pixels.as_slice());
}

/// Redraws a frame: clears it, then draws the glyphs over it. What the frame
/// held before does not matter.
pub fn render_frame(frame: &mut [u8], glyphs: &[Glyph], width: u32, height: u32)
    requires
        frame_holds(old(frame)@.len(), width as nat, height as nat),
    ensures
        final(frame)@ == rendered_frame(
            old(frame)@,
            glyph_views(glyphs@),
            width as nat,
            height as nat,
        ),
{
    clear_frame(frame);
    draw_glyphs(frame, glyphs, width, height);
}

/// Redrawing with no glyphs, as for an empty text, leaves the frame blank:
/// every byte is zero.
pub proof fn lemma_no_glyphs_leave_frame_blank(frame: Seq<u8>, width: nat, height: nat)
    requires
        4 * (width * height) <= frame.len(),
    ensures
        text_layer(Seq::empty(), width, height) == Seq::new(
            width * height,
            |i: int| Rgba8::spec_transparent(),
        ),
        drawn_frame(blank(frame.len()), Seq::empty(), width, height) == blank(frame.len()),
        rendered_frame(frame, Seq::empty(), width, height) == blank(frame.len()),
{
    assert(text_layer(Seq::empty(), width, height) =~= Seq::new(
        width * height,
        |i: int| Rgba8::spec_transparent(),
    ));
    assert(drawn_frame(blank(frame.len()), Seq::empty(), width, height) =~= blank(frame.len()));
}

/// A redraw is repeatable. What comes out depends on the glyphs and the size
/// alone, not on what the frame held: two frames of one length come out
/// equal, and drawing or redrawing a second time changes nothing.
pub proof fn lemma_redraw_is_repeatable(
    first: Seq<u8>,
    second: Seq<u8>,
    glyphs: Seq<GlyphView>,
    width: nat,
    height: nat,
)
    requires
        first.len() == second.len(),
        4 * (width * height) <= first.len(),
    ensures
        rendered_frame(first, glyphs, width, height) == rendered_frame(
            second,
            glyphs,
            width,
            height,
        ),
        rendered_frame(rendered_frame(first, glyphs, width, height), glyphs, width, height)
            == rendered_frame(first, glyphs, width, height),
        drawn_frame(drawn_frame(first, glyphs, width, height), glyphs, width, height)
            == drawn_frame(first, glyphs, width, height),
{
    let once = drawn_frame(first, glyphs, width, height);
    assert(once.len() == first.len());
    assert(drawn_frame(once, glyphs, width, height) =~= once);
    assert(rendered_frame(first, glyphs, width, height).len() == first.len());
}

/// A sample that does not land on a place can be left out of its glyph
/// without a change at that place.
proof fn lemma_sample_elsewhere(origin: Origin, samples: Seq<Sample>, k: int, x: int, y: int)
    requires
        0 <= k < samples.len(),
        !lands_on(origin, samples[k], x, y),
    ensures
        samples_alpha_at(origin, samples.remove(k), x, y) == samples_alpha_at(
            origin,
            samples,
            x,
            y,
        ),
    decreases samples.len(),
{
    if k == samples.len() - 1 {
        assert(samples.remove(k) =~= samples.drop_last());
    } else {
        assert(samples.remove(k).last() == samples.last());
        assert(samples.remove(k).drop_last() =~= samples.drop_last().remove(k));
        lemma_sample_elsewhere(origin, samples.drop_last(), k, x, y);
    }
}

/// A glyph may be exchanged for one that leaves the same opacity at a place
/// without a change at that place.
proof fn lemma_glyph_exchanged(glyphs: Seq<GlyphView>, g: int, other: GlyphView, x: int, y: int)
    requires
        0 <= g < glyphs.len(),
        glyph_alpha_at(other, x, y) == glyph_alpha_at(glyphs[g], x, y),
    ensures
        alpha_at(glyphs.update(g, other), x, y) == alpha_at(glyphs, x, y),
    decreases glyphs.len(),
{
    if g == glyphs.len() - 1 {
        assert(glyphs.update(g, other).drop_last() =~= glyphs.drop_last());
    } else {
        assert(glyphs.update(g, other).last() == glyphs.last());
        assert(glyphs.update(g, other).drop_last() =~= glyphs.drop_last().update(g, other));
        lemma_glyph_exchanged(glyphs.drop_last(), g, other, x, y);
    }
}

/// Clipping: a sample whose place lies outside the frame leaves no trace.
/// Whichever glyph it belongs to and wherever it stands among that glyph's
/// samples, the layer is the one that the glyphs paint without it.
pub proof fn lemma_sample_outside_leaves_no_trace(
    glyphs: Seq<GlyphView>,
    g: int,
    k: int,
    width: nat,
    height: nat,
)
    requires
        0 <= g < glyphs.len(),
        0 <= k < glyphs[g].samples.len(),
        glyphs[g].origin matches Some(origin) && !inside(
            origin.x + glyphs[g].samples[k].x,
            origin.y + glyphs[g].samples[k].y,
            width,
            height,
        ),
    ensures
        text_layer(
            glyphs.update(
                g,
                (GlyphView { origin: glyphs[g].origin, samples: glyphs[g].samples.remove(k) }),
            ),
            width,
            height,
        ) == text_layer(glyphs, width, height),
{
    let origin = glyphs[g].origin->Some_0;
    let samples = glyphs[g].samples;
    let without = GlyphView { origin: glyphs[g].origin, samples: samples.remove(k) };
    let w = width as int;
    assert forall|i: int| 0 <= i < width * height implies #[trigger] text_layer(
        glyphs.update(g, without),
        width,
        height,
    )[i] == text_layer(glyphs, width, height)[i] by {
        lemma_index_inside(i, width, height);
        lemma_sample_elsewhere(origin, samples, k, i % w, i / w);
        lemma_glyph_exchanged(glyphs, g, without, i % w, i / w);
    }
    assert(text_layer(glyphs.update(g, without), width, height) =~= text_layer(
        glyphs,
        width,
        height,
    ));
}

} // verus!
