//! A window that shows a counter, and the text compositor that paints it.
//!
//! The crate holds the decisions of the application: how an event changes the
//! counter and what the host does next, how the counter is spelled out, and
//! how the coverage samples of laid-out glyphs become the bytes of an RGBA
//! frame. Opening the window, shaping the text with a font and presenting the
//! frame are left to the program that uses the crate.

pub mod color;
pub mod compositor;
pub mod event;
pub mod frame;
pub mod glyph;
pub mod label;
mod layer;
pub mod settings;
