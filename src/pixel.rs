//! Pixels of a falling-sand grid: their kinds and colours.
use rand::Rng;
use vstd::prelude::*;

verus! {

/// An RGB colour.
#[derive(Copy, Clone, Debug, Default, PartialEq, Eq, Structural)]
pub struct Color {
    pub r: u8,
    pub g: u8,
    pub b: u8,
}

/// The kinds of pixel in the grid.
#[derive(Default, Copy, Clone, Debug, PartialEq, Eq, Structural)]
pub enum PixelType {
    #[default]
    Air,
    Water,
    Snow,
    Sand,
    Ground,
}

/// One pixel of the grid: its kind and its colour.
#[derive(Copy, Clone, Debug)]
pub struct Pixel {
    color: Color,
    pixel_type: PixelType,
}

/// The colour a pixel of kind `t` starts from.
pub open spec fn base_color(t: PixelType) -> Color {
    match t {
        PixelType::Air => Color { r: 0, g: 191, b: 255 },
        PixelType::Water => Color { r: 202, g: 231, b: 249 },
        PixelType::Ground => Color { r: 30, g: 160, b: 30 },
        PixelType::Snow => Color { r: 255, g: 255, b: 255 },
        PixelType::Sand => Color { r: 194, g: 178, b: 128 },
    }
}

/// Whether pixels of kind `t` vary their colour from pixel to pixel.
pub open spec fn varies(t: PixelType) -> bool {
    match t {
        PixelType::Air | PixelType::Water => false,
        _ => true,
    }
}

/// How much darker the roll `roll` makes a colour: 0, 5 or 10 on each channel.
pub open spec fn darkening(roll: u32) -> int {
    (roll % 3) as int * 5
}

/// `c` darkened by `d` on each channel.
pub open spec fn darken(c: Color, d: int) -> Color {
    Color { r: (c.r - d) as u8, g: (c.g - d) as u8, b: (c.b - d) as u8 }
}

/// The colour of a pixel of kind `t` for the roll `roll`.
pub open spec fn pixel_color(t: PixelType, roll: u32) -> Color {
    if varies(t) {
        darken(base_color(t), darkening(roll))
    } else {
        base_color(t)
    }
}

/// Relies on `rand::thread_rng` and `Rng::gen_range`: a number drawn from
/// `0..n`.
#[verifier::external_body]
fn draw_below(n: u32) -> (r: u32)
    requires
        n > 0,
    ensures
        r < n,
{
    rand::thread_rng().gen_range(0..n)
}

/// Darkens `color` by 0, 5 or 10 on every channel, as `roll % 3` picks.
pub fn vary_color(color: Color, roll: u32) -> (r: Color)
    requires
        color.r >= 10,
        color.g >= 10,
        color.b >= 10,
    ensures
        r == darken(color, darkening(roll)),
{
    let val: u8 = ((roll % 3) * 5) as u8;
    Color { r: color.r - val, g: color.g - val, b: color.b - val }
}

impl Pixel {
    /// A pixel of kind `pixel_type` whose colour the roll `roll` picks.
    pub fn with_variation(pixel_type: PixelType, roll: u32) -> (r: Pixel)
        ensures
            r.kind() == pixel_type,
            r.colour() == pixel_color(pixel_type, roll),
    {
        let color = match pixel_type {
            PixelType::Air => Color { r: 0, g: 191, b: 255 },
            PixelType::Water => Color { r: 202, g: 231, b: 249 },
            PixelType::Ground => vary_color(Color { r: 30, g: 160, b: 30 }, roll),
            PixelType::Snow => vary_color(Color { r: 255, g: 255, b: 255 }, roll),
            PixelType::Sand => vary_color(Color { r: 194, g: 178, b: 128 }, roll),
        };
        Pixel { color, pixel_type }
    }

    /// A pixel of kind `pixel_type`. Air and water take their kind's colour;
    /// the other kinds take it darkened by a random 0, 5 or 10.
    pub fn new(pixel_type: PixelType) -> (r: Pixel)
        ensures
            r.kind() == pixel_type,
            exists|roll: u32| roll < 20 && r.colour() == #[trigger] pixel_color(pixel_type, roll),
    {
        let roll = draw_below(20);
        Self::with_variation(pixel_type, roll)
    }

    /// The kind of this pixel.
    pub fn get_type(&self) -> (r: PixelType)
        ensures
            r == self.kind(),
    {
        self.pixel_type
    }

    /// The colour of this pixel.
    pub fn get_color(&self) -> (r: Color)
        ensures
            r == self.colour(),
    {
        self.color
    }

    /// The kind of this pixel.
    pub closed spec fn kind(&self) -> PixelType {
        self.pixel_type
    }

    /// The colour of this pixel.
    pub closed spec fn colour(&self) -> Color {
        self.color
    }
}

impl Default for Pixel {
    /// An air pixel.
    fn default() -> (r: Pixel)
        ensures
            r.kind() == PixelType::Air,
            r.colour() == base_color(PixelType::Air),
    {
        Self::with_variation(PixelType::Air, 0)
    }
}

} // verus!
