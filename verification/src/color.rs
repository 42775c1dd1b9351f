//! Pixel values of the frame.

use vstd::prelude::*;

verus! {

/// One pixel: red, green, blue and alpha, eight bits each.
#[derive(Clone, Copy, Debug, PartialEq, Eq, Structural)]
pub struct Rgba8 {
    pub r: u8,
    pub g: u8,
    pub b: u8,
    pub a: u8,
}

impl Rgba8 {
    /// The pixel of a cleared frame: black and fully transparent.
    pub open spec fn spec_transparent() -> Rgba8 {
        Rgba8 { r: 0, g: 0, b: 0, a: 0 }
    }

    /// White ink with the given opacity.
    pub open spec fn spec_ink(alpha: u8) -> Rgba8 {
        Rgba8 { r: 255, g: 255, b: 255, a: alpha }
    }

    /// The pixel of a cleared frame: black and fully transparent.
    #[verifier::when_used_as_spec(spec_transparent)]
    pub fn transparent() -> (c: Rgba8)
        ensures
            c == Rgba8::spec_transparent(),
    {
        Rgba8 { r: 0, g: 0, b: 0, a: 0 }
    }

    /// White ink with the given opacity.
    #[verifier::when_used_as_spec(spec_ink)]
    pub fn ink(alpha: u8) -> (c: Rgba8)
        ensures
            c == Rgba8::spec_ink(alpha),
    {
        Rgba8 { r: 255, g: 255, b: 255, a: alpha }
    }
}

} // verus!
