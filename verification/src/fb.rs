//! Color palette for the framebuffer device layer.
//!
//! Each variant names a 32-bit `0x00RRGGBB` pixel value; the conversion to
//! `u32` is the value written into the framebuffer.

use vstd::prelude::*;

verus! {

/// The classic 8-color text palette plus black, as `0x00RRGGBB` pixels.
#[derive(Clone, Copy, Debug, PartialEq, Eq, Structural)]
pub enum RGBColor {
    Black,
    Red,
    Green,
    Yellow,
    Brown,
    Blue,
    Magenta,
    Cyan,
    Grey,
}

/// The `0x00RRGGBB` pixel value of `c`.
pub open spec fn color_value(c: RGBColor) -> u32 {
    match c {
        RGBColor::Black => 0x000000,
        RGBColor::Red => 0xAA0000,
        RGBColor::Green => 0x00AA00,
        RGBColor::Yellow => 0xAAAA00,
        RGBColor::Brown => 0xAA5500,
        RGBColor::Blue => 0x0000AA,
        RGBColor::Magenta => 0xAA00AA,
        RGBColor::Cyan => 0x00AAAA,
        RGBColor::Grey => 0xAAAAAA,
    }
}

impl From<RGBColor> for u32 {
    fn from(c: RGBColor) -> (v: u32) {
        match c {
            RGBColor::Black => 0x000000,
            RGBColor::Red => 0xAA0000,
            RGBColor::Green => 0x00AA00,
            RGBColor::Yellow => 0xAAAA00,
            RGBColor::Brown => 0xAA5500,
            RGBColor::Blue => 0x0000AA,
            RGBColor::Magenta => 0xAA00AA,
            RGBColor::Cyan => 0x00AAAA,
            RGBColor::Grey => 0xAAAAAA,
        }
    }
}

impl vstd::std_specs::convert::FromSpecImpl<RGBColor> for u32 {
    open spec fn obeys_from_spec() -> bool {
        true
    }

    open spec fn from_spec(c: RGBColor) -> u32 {
        color_value(c)
    }
}

} // verus!
