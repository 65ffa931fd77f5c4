//! Free-standing sprites: a rectangle of opaque pixels that is copied onto
//! the screen at a pixel position.

use vstd::prelude::*;
use crate::common::{GridPosition, Size};
use crate::render::{lemma_pixel_index, pixel_index};

verus! {

/// A colour of three 8-bit channels.
#[derive(Debug, Clone, Copy, PartialEq, Eq, Structural)]
pub struct RGB {
    pub r: u8,
    pub g: u8,
    pub b: u8,
}

impl RGB {
    pub fn new(r: u8, g: u8, b: u8) -> (c: Self)
        ensures
            c == (RGB { r, g, b }),
    {
        Self { r, g, b }
    }

    /// The pixel value `0x00RRGGBB` of this colour.
    pub open spec fn packed(self) -> u32 {
        crate::common::packed(self.r, self.g, self.b)
    }
}

impl From<RGB> for u32 {
    fn from(pixel: RGB) -> (p: u32) {
        ((pixel.r as u32) << 16) | ((pixel.g as u32) << 8) | (pixel.b as u32)
    }
}

impl vstd::std_specs::convert::FromSpecImpl<RGB> for u32 {
    open spec fn obeys_from_spec() -> bool {
        true
    }

    open spec fn from_spec(pixel: RGB) -> u32 {
        pixel.packed()
    }
}

/// A rectangle of pixels, stored row by row, and the screen position of
/// its top left corner.
pub struct Sprite {
    pub origin: GridPosition,
    pub size: Size,
    pub pixels: Vec<RGB>,
}

impl Sprite {
    pub fn new(pos: GridPosition, size: Size, pixels: Vec<RGB>) -> (sprite: Self)
        ensures
            sprite.origin == pos,
            sprite.size == size,
            sprite.pixels == pixels,
    {
        Self { origin: pos, size, pixels }
    }

    /// Whether the whole sprite lies on a screen of the given size.
    pub open spec fn fits(&self, screen_width: u32, screen_height: u32) -> bool {
        &&& self.origin.x + self.size.width <= screen_width
        &&& self.origin.y + self.size.height <= screen_height
    }

    /// Whether the sprite covers the pixel in column `px` of row `py`.
    pub open spec fn covers(&self, px: int, py: int) -> bool {
        &&& self.origin.x <= px < self.origin.x + self.size.width
        &&& self.origin.y <= py < self.origin.y + self.size.height
    }

    /// The place in the framebuffer just past the last pixel that the
    /// sprite covers, for a sprite that covers any.
    pub open spec fn reach(&self, screen_width: u32) -> int {
        (self.origin.y + self.size.height - 1) * screen_width + self.origin.x + self.size.width
    }

    /// Whether drawing finds all it reads and writes: nothing is asked of
    /// a sprite that does not lie on the screen as a whole, or that covers
    /// no pixel. Any other needs a colour for each pixel of its rectangle,
    /// and a framebuffer that holds every pixel that the sprite covers.
    pub open spec fn can_draw(&self, screen_len: int, screen_width: u32, screen_height: u32) -> bool {
        self.fits(screen_width, screen_height) && self.size.spec_area() > 0 ==> {
            &&& self.pixels@.len() >= self.size.spec_area()
            &&& screen_len >= self.reach(screen_width)
        }
    }

    /// The colour that the sprite holds for the screen pixel (`px`, `py`).
    pub open spec fn colour_at(&self, px: int, py: int) -> u32 {
        self.pixels@[(py - self.origin.y) * self.size.width + (px - self.origin.x)].packed()
    }

    /// The value of the screen pixel (`px`, `py`) after the sprite was
    /// drawn over the value `under`.
    pub open spec fn value_at(
        &self,
        screen_width: u32,
        screen_height: u32,
        px: int,
        py: int,
        under: u32,
    ) -> u32 {
        if self.fits(screen_width, screen_height) && self.covers(px, py) {
            self.colour_at(px, py)
        } else {
            under
        }
    }

    /// The screen after the sprite was drawn: a sprite that lies on the
    /// screen as a whole replaces every pixel it covers, and one that
    /// reaches past the right or the lower edge draws nothing.
    pub open spec fn drawn(&self, before: Seq<u32>, screen_width: u32, screen_height: u32) -> Seq<
        u32,
    > {
        Seq::new(
            before.len(),
            |i: int|
                self.value_at(
                    screen_width,
                    screen_height,
                    i % screen_width as int,
                    i / screen_width as int,
                    before[i],
                ),
        )
    }

    /// The value at place `i` of the framebuffer while the sprite is
    /// drawn, when its rows above `y` and the first `x` pixels of row `y`
    /// are done.
    spec fn partly_drawn(
        &self,
        screen_width: u32,
        screen_height: u32,
        x: int,
        y: int,
        i: int,
        under: u32,
    ) -> u32 {
        let px = i % screen_width as int;
        let py = i / screen_width as int;
        if py < self.origin.y + y || (py == self.origin.y + y && px < self.origin.x + x) {
            self.value_at(screen_width, screen_height, px, py, under)
        } else {
            under
        }
    }

    /// Copies the sprite onto the screen, a framebuffer that holds the
    /// pixels of a screen `screen_width` wide and `screen_height` high row
    /// by row.
    pub fn draw(&self, screen: &mut [u32], screen_width: u32, screen_height: u32)
        requires
            self.can_draw(old(screen)@.len() as int, screen_width, screen_height),
        ensures
            final(screen)@ == self.drawn(old(screen)@, screen_width, screen_height),
    {
        let ghost before = screen@;
        let ghost w = screen_width as int;
        let total = screen.len();
        let count = self.pixels.len();
        let width = self.size.width as usize;
        let height = self.size.height as usize;
        let left = self.origin.x as usize;
        let top = self.origin.y as usize;
        if self.origin.x as u64 + self.size.width as u64 > screen_width as u64 || self.origin.y as u64
            + self.size.height as u64 > screen_height as u64 || width == 0 || height == 0 {
            return ;
        }
        proof {
            lemma_area_is_positive(width as int, height as int);
        }
        let mut y: usize = 0;
        while y < height
            invariant
                y <= height,
                0 < width == self.size.width,
                0 < height == self.size.height,
                self.fits(screen_width, screen_height),
                left == self.origin.x,
                top == self.origin.y,
                w == screen_width,
                screen@.len() == before.len() == total,
                count == self.pixels@.len(),
                count >= width * height,
                total >= self.reach(screen_width),
                forall|i: int|
                    0 <= i < total ==> screen@[i] == self.partly_drawn(
                        screen_width,
                        screen_height,
                        0,
                        y as int,
                        i,
                        #[trigger] before[i],
                    ),
            decreases height - y,
        {
            let mut x: usize = 0;
            while x < width
                invariant
                    x <= width,
                    y < height,
                    0 < width == self.size.width,
                    0 < height == self.size.height,
                    self.fits(screen_width, screen_height),
                    left == self.origin.x,
                    top == self.origin.y,
                    w == screen_width,
                    screen@.len() == before.len() == total,
                    count == self.pixels@.len(),
                    count >= width * height,
                    total >= self.reach(screen_width),
                    forall|i: int|
                        0 <= i < total ==> screen@[i] == self.partly_drawn(
                            screen_width,
                            screen_height,
                            x as int,
                            y as int,
                            i,
                            #[trigger] before[i],
                        ),
                decreases width - x,
            {
                let ghost current = screen@;
                let ghost tx = left + x;
                let ghost ty = top + y;
                proof {
                    lemma_pixel_index(w, ty + 1, tx as int, ty as int);
                    lemma_pixel_index(width as int, height as int, x as int, y as int);
                    reveal(pixel_index);
                    lemma_place_in_reach(w, ty as int, top + height - 1, tx as int, left + width);
                }
                let colour = u32::from(self.pixels[y * width + x]);
                let row_start = (top + y) * (screen_width as usize);
                screen[row_start + left + x] = colour;
                assert forall|i: int| 0 <= i < total implies screen@[i] == self.partly_drawn(
                    screen_width,
                    screen_height,
                    x + 1,
                    y as int,
                    i,
                    #[trigger] before[i],
                ) by {
                    assert(current[i] == self.partly_drawn(
                        screen_width,
                        screen_height,
                        x as int,
                        y as int,
                        i,
                        before[i],
                    ));
                    if i == ty * w + tx {
                        assert((ty - top) * width + (tx - left) == y * width + x);
                    } else {
                        lemma_place_is_one(w, i, tx as int, ty as int);
                    }
                }
                x += 1;
            }
            y += 1;
        }
    }
}

/// No two places of the framebuffer hold the same pixel.
proof fn lemma_place_is_one(width: int, i: int, column: int, row: int)
    requires
        0 < width,
        i != row * width + column,
    ensures
        !(i % width == column && i / width == row),
{
    vstd::arithmetic::div_mod::lemma_fundamental_div_mod(i, width);
    assert(width * row == row * width) by (nonlinear_arith);
}

/// A rectangle with a width and a height has an area.
proof fn lemma_area_is_positive(width: int, height: int)
    requires
        0 < width,
        0 < height,
    ensures
        0 < width * height,
{
    assert(0 < width * height) by (nonlinear_arith)
        requires
            0 < width,
            0 < height,
    ;
}

/// A pixel in a row up to `last` and a column before `right` has its place
/// before the place of column `right` in row `last`.
proof fn lemma_place_in_reach(width: int, row: int, last: int, column: int, right: int)
    requires
        0 <= width,
        0 <= row <= last,
        0 <= column < right,
    ensures
        0 <= row * width,
        row * width + column < last * width + right,
{
    assert(0 <= row * width <= last * width) by (nonlinear_arith)
        requires
            0 <= width,
            0 <= row <= last,
    ;
}

} // verus!
