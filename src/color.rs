//! Color types generic over their channel type, with channel getters and builders.
use vstd::prelude::*;

pub mod adobe_rgb;
pub mod alpha;
pub mod hex;
pub mod hsl;
pub mod hsv;
pub mod lab;
pub mod lch;
pub mod oklab;
pub mod oklch;
pub mod rgb;
pub mod srgb;
pub mod xyz;

use alpha::Transparent;
use rgb::RGB;

verus! {

/// A linear RGB color from 8-bit channels.
pub fn rgb_u8(red: u8, green: u8, blue: u8) -> (r: RGB<u8>)
    ensures
        r@ == (red, green, blue),
{
    RGB::new(red, green, blue)
}

/// A linear RGB color with alpha from 8-bit channels.
pub fn rgba_u8(red: u8, green: u8, blue: u8, alpha: u8) -> (r: Transparent<RGB<u8>, u8>)
    ensures
        r@.0@ == (red, green, blue),
        r@.1 == alpha,
{
    let color = RGB::new(red, green, blue);
    Transparent::new(color, alpha)
}

} // verus!
