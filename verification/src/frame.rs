//! The frame: the RGBA bytes that are presented, four per pixel, row after
//! row.

use vstd::prelude::*;
use crate::color::Rgba8;

verus! {

/// One of the four bytes of a pixel, in the order red, green, blue, alpha.
pub open spec fn channel(color: Rgba8, k: int) -> u8 {
    if k == 0 {
        color.r
    } else if k == 1 {
        color.g
    } else if k == 2 {
        color.b
    } else {
        color.a
    }
}

/// The bytes of a run of pixels: four per pixel, in the order of the pixels.
pub open spec fn pixel_bytes(pixels: Seq<Rgba8>) -> Seq<u8> {
    Seq::new(4 * pixels.len(), |i: int| channel(pixels[i / 4], i % 4))
}

/// A frame of `len` bytes that all are zero: transparent black throughout.
pub open spec fn blank(len: nat) -> Seq<u8> {
    Seq::new(len, |i: int| 0u8)
}

/// Whether a frame of `len` bytes can be drawn on as `width` by `height`
/// pixels: it has to hold four bytes for each of them, that many bytes have
/// to be within what one allocation can hold, and the bytes of one row have
/// to be countable on this machine, also where there is no row.
pub open spec fn frame_holds(len: nat, width: nat, height: nat) -> bool {
    &&& 4 * (width * height) <= len
    &&& 4 * (width * height) <= isize::MAX
    &&& 4 * width <= usize::MAX
}

/// Tests whether a frame of `len` bytes can be drawn on as `width` by
/// `height` pixels.
pub fn frame_fits(len: usize, width: u32, height: u32) -> (fits: bool)
    ensures
        fits == frame_holds(len as nat, width as nat, height as nat),
{
    assert(width * height <= 0xffff_ffff * 0xffff_ffff) by (nonlinear_arith)
        requires
            0 <= width <= 0xffff_ffff,
            0 <= height <= 0xffff_ffff,
    ;
    let row: u128 = 4 * (width as u128);
    let bytes: u128 = 4 * (width as u128 * height as u128);
    bytes <= len as u128 && bytes <= isize::MAX as u128 && row <= usize::MAX as u128
}

/// Clears a frame: every byte becomes zero.
pub fn clear_frame(frame: &mut [u8])
    ensures
        final(frame)@ == blank(old(frame)@.len()),
{
    let n: usize = frame.len();
    let mut i: usize = 0;
    while i < n
        invariant
            i <= n,
            frame@.len() == n,
            n == old(frame)@.len(),
            forall|j: int| 0 <= j < i ==> frame@[j] == 0u8,
        decreases n - i,
    {
        frame[i] = 0;
        i = i + 1;
    }
    assert(frame@ =~= blank(old(frame)@.len()));
}

/// Writes a run of pixels over the start of a frame, four bytes per pixel.
/// The bytes behind them stay as they were.
pub fn write_pixels(frame: &mut [u8], pixels: &[Rgba8])
    requires
        4 * pixels@.len() <= old(frame)@.len(),
    ensures
        final(frame)@ == pixel_bytes(pixels@) + old(frame)@.skip(4 * pixels@.len() as int),
{
    let n: usize = pixels.len();
    let total: usize = frame.len();
    let mut i: usize = 0;
    while i < n
        invariant
            i <= n,
            n == pixels@.len(),
            4 * n <= total,
            frame@.len() == total,
            total == old(frame)@.len(),
            forall|j: int| 0 <= j < 4 * i ==> frame@[j] == channel(pixels@[j / 4], j % 4),
            forall|j: int| 4 * i <= j < frame@.len() ==> frame@[j] == old(frame)@[j],
        decreases n - i,
    {
        let pixel: Rgba8 = pixels[i];
        let index: usize = i * 4;
        frame[index] = pixel.r;
        frame[index + 1] = pixel.g;
        frame[index + 2] = pixel.b;
        frame[index + 3] = pixel.a;
        i = i + 1;
    }
    assert(frame@ =~= pixel_bytes(pixels@) + old(frame)@.skip(4 * pixels@.len() as int));
}

} // verus!
