//! Small value types shared by the font, the editor and the compositor.

use vstd::prelude::*;

verus! {

/// A colour of three 8-bit channels, without alpha.
#[derive(Debug, Clone, Copy, PartialEq, Eq, Structural)]
pub struct Rgb {
    pub r: u8,
    pub g: u8,
    pub b: u8,
}

/// The packed pixel value `0x00RRGGBB` of three channels.
pub open spec fn packed(r: u8, g: u8, b: u8) -> u32 {
    ((r as u32) << 16) | ((g as u32) << 8) | (b as u32)
}

/// The packed value is the positional sum of the channels, so it is zero
/// exactly for pure black and never touches the top byte.
pub proof fn lemma_packed_value(r: u8, g: u8, b: u8)
    ensures
        packed(r, g, b) == r as int * 65536 + g as int * 256 + b as int,
        packed(r, g, b) <= 0x00ff_ffff,
        packed(r, g, b) == 0 <==> (r == 0 && g == 0 && b == 0),
{
    assert(((r as u32) << 16) | ((g as u32) << 8) | (b as u32) == (r as u32) * 65536 + (g as u32)
        * 256 + (b as u32)) by (bit_vector);
}

impl Rgb {
    pub fn new(r: u8, g: u8, b: u8) -> (c: Self)
        ensures
            c == (Rgb { r, g, b }),
    {
        Self { r, g, b }
    }

    /// The pixel value this colour is stored as in a framebuffer.
    pub open spec fn packed(self) -> u32 {
        packed(self.r, self.g, self.b)
    }
}

impl From<Rgb> for u32 {
    fn from(pixel: Rgb) -> (p: u32) {
        ((pixel.r as u32) << 16) | ((pixel.g as u32) << 8) | (pixel.b as u32)
    }
}

impl vstd::std_specs::convert::FromSpecImpl<Rgb> for u32 {
    open spec fn obeys_from_spec() -> bool {
        true
    }

    open spec fn from_spec(pixel: Rgb) -> u32 {
        pixel.packed()
    }
}

/// A cell address: a column `x` and a row `y`, in buffer or viewport
/// coordinates.
#[derive(Debug, Copy, Clone, PartialEq, Eq, Structural)]
pub struct GridPosition {
    pub x: u32,
    pub y: u32,
}

impl GridPosition {
    pub fn new(x: u32, y: u32) -> (p: Self)
        ensures
            p == (GridPosition { x, y }),
    {
        Self { x, y }
    }

    /// Whether the position lies in the half-open rectangle from `from`
    /// (inclusive) to `to` (exclusive) on both axes.
    pub open spec fn inside(self, from: GridPosition, to: GridPosition) -> bool {
        from.x <= self.x < to.x && from.y <= self.y < to.y
    }

    pub fn is_inside(&self, from: &GridPosition, to: &GridPosition) -> (b: bool)
        ensures
            b == self.inside(*from, *to),
    {
        self.x >= from.x && self.x < to.x && self.y >= from.y && self.y < to.y
    }
}

/// A width and a height, in cells or pixels.
#[derive(Copy, Clone, Debug, PartialEq, Eq, Structural)]
pub struct Size {
    pub width: u32,
    pub height: u32,
}

impl Size {
    pub fn new(width: u32, height: u32) -> (s: Self)
        ensures
            s == (Size { width, height }),
    {
        Self { width, height }
    }

    /// The number of cells or pixels in a rectangle of this size.
    pub open spec fn spec_area(self) -> int {
        self.width as int * self.height as int
    }

    /// The area, for a size whose area fits the result.
    pub fn area(&self) -> (a: u32)
        requires
            self.spec_area() <= u32::MAX,
        ensures
            a == self.spec_area(),
    {
        self.width * self.height
    }
}

/// A position is inside a range exactly when, on both axes, it is at or
/// after `from` and before `to`. A position on or past `to`, or before
/// `from`, on either axis is outside; so nothing is inside a range that is
/// empty on an axis, such as one with `from == to`.
pub proof fn lemma_inside(p: GridPosition, from: GridPosition, to: GridPosition)
    ensures
        p.inside(from, to) <==> (from.x <= p.x && p.x < to.x && from.y <= p.y && p.y < to.y),
        p.x < from.x || p.y < from.y ==> !p.inside(from, to),
        p.x >= to.x || p.y >= to.y ==> !p.inside(from, to),
        from.x >= to.x || from.y >= to.y ==> !p.inside(from, to),
        from == to ==> !p.inside(from, to),
{
}

} // verus!
