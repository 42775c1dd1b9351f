//! The fixed figures of the application: the title and the size of the
//! window, and where and how large the text stands.

use vstd::prelude::*;

verus! {

/// The width of the window and of the frame, in pixels.
pub const WIDTH: u32 = 400;

/// The height of the window and of the frame, in pixels.
pub const HEIGHT: u32 = 200;

/// The point size of the text, in pixels.
pub const FONT_SIZE: u32 = 24;

/// The distance of the text from the left edge of the frame, in pixels.
pub const MARGIN_LEFT: u32 = 10;

/// The distance of the top of the text from the top edge of the frame, in
/// pixels. The baseline lies below it by the ascent of the font.
pub const MARGIN_TOP: u32 = 10;

/// The title of the window.
pub fn window_title() -> (title: &'static str)
    ensures
        title@ == "Counter App"@,
{
    "Counter App"
}

} // verus!
