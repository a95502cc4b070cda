//! Colours: fixed-point intensities going in, 8-bit channels coming out.

use vstd::prelude::*;

verus! {

/// The fixed-point representation of 1.0: intensities and coefficients are
/// counted in units of 1/65536.
pub const ONE: u32 = 65536;

/// The scale of a product of three fixed-point factors, `ONE * ONE * ONE`.
/// Radiance is accumulated at this scale, so that nothing is rounded before
/// the final quantisation.
pub const UNIT: u128 = 281474976710656;

/// The brightest level of an output channel.
pub const MAX_LEVEL: u8 = 255;

/// One of the three channels of a colour.
#[derive(Clone, Copy, Debug, PartialEq, Eq, Structural)]
pub enum Channel {
    Red,
    Green,
    Blue,
}

/// A colour as light carries it: three non-negative intensities in units of
/// 1/65536. Ambient light, light emission and material reflectances are of this
/// type.
#[derive(Clone, Copy, Debug, PartialEq, Eq, Structural)]
pub struct Rgb {
    pub r: u32,
    pub g: u32,
    pub b: u32,
}

/// A colour as the raster stores it: three 8-bit levels.
#[derive(Clone, Copy, Debug, PartialEq, Eq, Structural)]
pub struct Colour {
    pub r: u8,
    pub g: u8,
    pub b: u8,
}

/// The level of each channel of the background.
pub const BACKGROUND_LEVEL: u8 = 26;

impl Colour {
    /// The colour of a ray that hits nothing: dark grey, (26, 26, 26).
    pub open spec fn background_spec() -> Colour {
        Colour { r: BACKGROUND_LEVEL, g: BACKGROUND_LEVEL, b: BACKGROUND_LEVEL }
    }

    /// The colour of a ray that hits nothing: dark grey, (26, 26, 26).
    #[verifier::when_used_as_spec(background_spec)]
    pub fn background() -> (c: Colour)
        ensures
            c == Colour::background_spec(),
            c.r == 26 && c.g == 26 && c.b == 26,
    {
        Colour { r: BACKGROUND_LEVEL, g: BACKGROUND_LEVEL, b: BACKGROUND_LEVEL }
    }
}

impl Rgb {
    /// The intensity of one channel.
    pub open spec fn get(self, ch: Channel) -> int {
        match ch {
            Channel::Red => self.r as int,
            Channel::Green => self.g as int,
            Channel::Blue => self.b as int,
        }
    }

    /// The intensity of one channel.
    pub fn channel(&self, ch: Channel) -> (v: u32)
        ensures
            v as int == self.get(ch),
    {
        match ch {
            Channel::Red => self.r,
            Channel::Green => self.g,
            Channel::Blue => self.b,
        }
    }
}

/// The level that a radiance at scale `UNIT` is stored as: the radiance times
/// 255, rounded down, and held within `0..=255`.
pub open spec fn level_of(radiance: int) -> int {
    let scaled = (radiance * 255) / (UNIT as int);
    if scaled < 0 {
        0
    } else if scaled > 255 {
        255
    } else {
        scaled
    }
}

/// Every level lies between 0 and 255, whatever the radiance.
pub proof fn level_in_range(radiance: int)
    ensures
        0 <= level_of(radiance) <= 255,
{
}

/// Turns a radiance at scale `UNIT` into an 8-bit level.
pub fn quantise(radiance: u128) -> (level: u8)
    ensures
        level as int == level_of(radiance as int),
        level <= MAX_LEVEL,
{
    if radiance >= UNIT {
        MAX_LEVEL
    } else {
        let scaled: u128 = (radiance * 255) / UNIT;
        scaled as u8
    }
}

} // verus!
