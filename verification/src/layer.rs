//! The intermediate layer that glyphs are painted on: an `image::ImageBuffer`
//! of RGBA pixels. Verus does not read the `image` crate, so what this module
//! says of it is believed, not proved.

use vstd::prelude::*;
use crate::color::Rgba8;

verus! {

/// A layer of RGBA pixels, kept in an `image::ImageBuffer` over a vector of
/// bytes. Verus sees nothing inside it; `layer_pixels` and `layer_size` name
/// what it holds.
#[verifier::external_body]
pub struct Layer {
    buffer: image::ImageBuffer<image::Rgba<u8>, Vec<u8>>,
}

/// The pixels that a layer holds, row after row from the top, each row from
/// the left: the pixel at column `x` of row `y` stands at index
/// `y * width + x`.
pub uninterp spec fn layer_pixels(layer: Layer) -> Seq<Rgba8>;

/// The width and the height that a layer was made with.
pub uninterp spec fn layer_size(layer: Layer) -> (u32, u32);

/// `image::ImageBuffer::from_fn` with a function that gives `fill` at every
/// place: a layer of the given size whose pixels all are `fill`. The call
/// counts the bytes of the buffer in `usize`, first four times the width,
/// then that times the height, and panics when either product overflows or
/// when the buffer would be larger than a vector can be. So the bytes of one
/// row have to fit a `usize`, also where the height is zero, and the bytes of
/// all rows what a vector can hold.
#[verifier::external_body]
pub(crate) fn new_layer(width: u32, height: u32, fill: Rgba8) -> (layer: Layer)
    requires
        4 * width <= usize::MAX,
        4 * (width * height) <= isize::MAX,
    ensures
        layer_size(layer) == (width, height),
        layer_pixels(layer) == Seq::new((width * height) as nat, |i: int| fill),
{
    let rgba = image::Rgba([fill.r, fill.g, fill.b, fill.a]);
    Layer { buffer: image::ImageBuffer::from_fn(width, height, |_, _| rgba) }
}

/// `image::ImageBuffer::get_pixel_mut`, assigned through: the pixel at
/// column `x` of row `y` becomes `color`, every other pixel and the size stay.
/// The call panics outside the layer, so the place has to lie inside.
#[verifier::external_body]
pub(crate) fn set_pixel(layer: &mut Layer, x: u32, y: u32, color: Rgba8)
    requires
        x < layer_size(*old(layer)).0,
        y < layer_size(*old(layer)).1,
    ensures
        layer_size(*final(layer)) == layer_size(*old(layer)),
        layer_pixels(*final(layer)) == layer_pixels(*old(layer)).update(
            y * layer_size(*old(layer)).0 + x,
            color,
        ),
{
    *layer.buffer.get_pixel_mut(x, y) = image::Rgba([color.r, color.g, color.b, color.a]);
}

/// `image::ImageBuffer::pixels`, collected: the pixels of the layer in the
/// order in which the iterator hands them out, which is the order of
/// `layer_pixels`.
#[verifier::external_body]
pub(crate) fn read_pixels(layer: &Layer) -> (pixels: Vec<Rgba8>)
    ensures
        pixels@ == layer_pixels(*layer),
{
    layer.buffer.pixels().map(|p| Rgba8 { r: p.0[0], g: p.0[1], b: p.0[2], a: p.0[3] }).collect()
}

} // verus!
