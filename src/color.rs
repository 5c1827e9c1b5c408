//! Colors in the 32-bit RGBA format with 8 bits per channel.
use vstd::prelude::*;
use pxlfmt::formats::rgba::Rgba8888;
use pxlfmt::pixel::raw::RawPixel;
use pxlfmt::pixel::Pixel;

verus! {

/// A color packed in the RGBA8888 format: red in the lowest byte, then green, blue, and alpha in
/// the highest byte. Drawing only copies colors and compares them bit for bit.
pub type Color = u32;

/// The packed value of the channels `r`, `g`, `b`, `a`.
pub open spec fn packed_rgba(r: u8, g: u8, b: u8, a: u8) -> u32 {
    (r as int + g as int * 0x100 + b as int * 0x1_0000 + a as int * 0x100_0000) as u32
}

/// Relies on pxlfmt's `Pixel::<Rgba8888>::with_rgba`, which sets each channel's byte of a zeroed
/// `U32x8888` (red at byte 0, green at 1, blue at 2, alpha at 3).
#[verifier::external_body]
fn pack_rgba(r: u8, g: u8, b: u8, a: u8) -> (c: Color)
    ensures
        c == packed_rgba(r, g, b, a),
{
    Pixel::<Rgba8888>::with_rgba(r, g, b, a).into_raw().into_inner()
}

/// A color from its red, green, blue and alpha channels.
pub fn rgba(r: u8, g: u8, b: u8, a: u8) -> (c: Color)
    ensures
        c == packed_rgba(r, g, b, a),
{
    pack_rgba(r, g, b, a)
}

} // verus!
