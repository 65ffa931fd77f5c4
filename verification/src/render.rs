//! The compositor: which value every pixel of the screen takes when the
//! visible text and the cursor are drawn over it, and the code that draws
//! them.

use vstd::prelude::*;
use crate::common::GridPosition;
use crate::editor::EditorView;
use crate::font::{is_letter, letter_at, letter_index, Font, LETTER_COUNT};
use crate::glyph::{LetterSprite, CHAR_HEIGHT, CHAR_WIDTH};
use crate::lines::rows_view;

verus! {

/// The place in a row-major framebuffer of the pixel in column `px` of row
/// `py`, for a screen `width` pixels wide.
#[verifier::opaque]
pub open spec fn pixel_index(width: int, px: int, py: int) -> int {
    py * width + px
}

/// The pixels of a screen are stored without gaps or overlap: every pixel
/// has a place in the buffer, and no two pixels share one.
pub proof fn lemma_pixel_index(width: int, height: int, px: int, py: int)
    requires
        0 <= px < width,
        0 <= py < height,
    ensures
        0 <= pixel_index(width, px, py) < width * height,
        pixel_index(width, px, py) % width == px,
        pixel_index(width, px, py) / width == py,
{
    reveal(pixel_index);
    assert(0 <= py * width + px < width * height) by (nonlinear_arith)
        requires
            0 <= px < width,
            0 <= py < height,
    ;
    vstd::arithmetic::div_mod::lemma_fundamental_div_mod_converse(
        py * width + px,
        width,
        py,
        px,
    );
}

/// Every place in the buffer belongs to one pixel.
pub proof fn lemma_pixel_of_index(width: int, height: int, i: int)
    requires
        0 <= i < width * height,
        0 <= height,
    ensures
        0 <= i % width < width,
        0 <= i / width < height,
        pixel_index(width, i % width, i / width) == i,
{
    reveal(pixel_index);
    assert(width > 0) by (nonlinear_arith)
        requires
            0 <= i < width * height,
            0 <= height,
    ;
    vstd::arithmetic::div_mod::lemma_fundamental_div_mod(i, width);
    vstd::arithmetic::div_mod::lemma_mod_bound(i, width);
    assert(0 <= i / width < height && (i / width) * width + i % width == i) by (nonlinear_arith)
        requires
            0 <= i < width * height,
            width > 0,
            i == width * (i / width) + i % width,
            0 <= i % width < width,
    ;
}

/// A place at or past the end of `height` whole rows lies in no row
/// before that.
pub proof fn lemma_row_past(width: int, height: int, i: int)
    requires
        0 < width,
        0 <= height,
        width * height <= i,
    ensures
        height <= i / width,
{
    vstd::arithmetic::div_mod::lemma_div_multiples_vanish(height, width);
    vstd::arithmetic::div_mod::lemma_div_is_ordered(width * height, i, width);
    assert(height * width == width * height) by (nonlinear_arith);
}

/// Whether two buffers hold the same values from the place `from` on.
pub open spec fn same_from(a: Seq<u32>, b: Seq<u32>, from: int) -> bool {
    forall|i: int| from <= i < a.len() ==> a[i] == b[i]
}

/// The value of the pixel in column `px` of row `py`.
pub open spec fn pixel(screen: Seq<u32>, width: int, px: int, py: int) -> u32 {
    screen[pixel_index(width, px, py)]
}

/// The value of a pixel after a sprite was drawn with its top left corner
/// at (`x0`, `y0`): the sprite's colour where the pixel lies under the
/// sprite and that colour is not zero, else the value it had.
pub open spec fn blit_value(
    sprite: LetterSprite,
    x0: int,
    y0: int,
    px: int,
    py: int,
    under: u32,
) -> u32 {
    if x0 <= px < x0 + CHAR_WIDTH && y0 <= py < y0 + CHAR_HEIGHT && sprite.at(
        px - x0,
        py - y0,
    ).packed() != 0 {
        sprite.at(px - x0, py - y0).packed()
    } else {
        under
    }
}

/// Draws a sprite with its top left corner at (`x0`, `y0`) into a
/// framebuffer that holds at least `height` rows of `width` pixels. Pixels
/// of the sprite whose packed colour is zero are transparent. What the
/// framebuffer holds past those rows stays.
pub fn blit(
    sprite: &LetterSprite,
    screen: &mut [u32],
    width: usize,
    height: usize,
    x0: usize,
    y0: usize,
)
    requires
        old(screen)@.len() >= width * height,
        x0 + CHAR_WIDTH <= width,
        y0 + CHAR_HEIGHT <= height,
    ensures
        final(screen)@.len() == old(screen)@.len(),
        forall|px: int, py: int|
            0 <= px < width && 0 <= py < height ==> #[trigger] pixel(
                final(screen)@,
                width as int,
                px,
                py,
            ) == blit_value(
                *sprite,
                x0 as int,
                y0 as int,
                px,
                py,
                pixel(old(screen)@, width as int, px, py),
            ),
        same_from(final(screen)@, old(screen)@, width * height),
{
    let ghost before = screen@;
    let ghost w = width as int;
    let ghost h = height as int;
    let total = screen.len();
    let mut dy: usize = 0;
    while dy < CHAR_HEIGHT
        invariant
            dy <= CHAR_HEIGHT,
            before == old(screen)@,
            w == width,
            h == height,
            screen@.len() == before.len() == total,
            w * h <= total,
            same_from(screen@, before, w * h),
            x0 + CHAR_WIDTH <= width,
            y0 + CHAR_HEIGHT <= height,
            forall|px: int, py: int|
                0 <= px < w && 0 <= py < h ==> #[trigger] pixel(screen@, w, px, py) == if py < y0
                    + dy {
                    blit_value(*sprite, x0 as int, y0 as int, px, py, pixel(before, w, px, py))
                } else {
                    pixel(before, w, px, py)
                },
        decreases CHAR_HEIGHT - dy,
    {
        let mut dx: usize = 0;
        while dx < CHAR_WIDTH
            invariant
                dx <= CHAR_WIDTH,
                dy < CHAR_HEIGHT,
                before == old(screen)@,
                w == width,
                h == height,
                screen@.len() == before.len() == total,
                w * h <= total,
                same_from(screen@, before, w * h),
                x0 + CHAR_WIDTH <= width,
                y0 + CHAR_HEIGHT <= height,
                forall|px: int, py: int|
                    0 <= px < w && 0 <= py < h ==> #[trigger] pixel(screen@, w, px, py) == if py
                        < y0 + dy || (py == y0 + dy && px < x0 + dx) {
                        blit_value(
                            *sprite,
                            x0 as int,
                            y0 as int,
                            px,
                            py,
                            pixel(before, w, px, py),
                        )
                    } else {
                        pixel(before, w, px, py)
                    },
            decreases CHAR_WIDTH - dx,
        {
            let value = u32::from(sprite.pixel(dx, dy));
            let ghost current = screen@;
            let ghost tx = x0 + dx;
            let ghost ty = y0 + dy;
            proof {
                lemma_pixel_index(w, h, tx, ty);
                reveal(pixel_index);
            }
            if value != 0 {
                let row_start = (y0 + dy) * width;
                screen[row_start + x0 + dx] = value;
            }
            assert forall|px: int, py: int| 0 <= px < w && 0 <= py < h implies #[trigger] pixel(
                screen@,
                w,
                px,
                py,
            ) == if py < y0 + dy || (py == y0 + dy && px < x0 + dx + 1) {
                blit_value(*sprite, x0 as int, y0 as int, px, py, pixel(before, w, px, py))
            } else {
                pixel(before, w, px, py)
            } by {
                lemma_pixel_index(w, h, px, py);
                assert(pixel(current, w, px, py) == current[pixel_index(w, px, py)]);
            }
            dx += 1;
        }
        dy += 1;
    }
}

/// Whether a list of pixel positions holds (`sx`, `sy`).
pub open spec fn holds(positions: Seq<(usize, usize)>, sx: int, sy: int) -> bool {
    exists|k: int|
        0 <= k < positions.len() && (#[trigger] positions[k]).0 == sx && positions[k].1 == sy
}

impl EditorView {
    /// The first buffer cell to the right of and below the viewport. A
    /// viewport that would reach past the last addressable cell ends
    /// there.
    pub open spec fn viewport_end(self) -> GridPosition {
        GridPosition {
            x: if self.origin.x + self.columns > u32::MAX {
                u32::MAX
            } else {
                (self.origin.x + self.columns) as u32
            },
            y: if self.origin.y + self.rows > u32::MAX {
                u32::MAX
            } else {
                (self.origin.y + self.rows) as u32
            },
        }
    }

    /// The byte in column `x` of row `y` of the buffer, if the buffer
    /// reaches that far.
    pub open spec fn cell(self, x: int, y: int) -> Option<u8> {
        if 0 <= y < self.lines.len() && 0 <= x < self.lines[y].len() {
            Some(self.lines[y][x])
        } else {
            None
        }
    }

    /// Whether the viewport shows the cell in its column `col` and row
    /// `row`, counted from its top left corner.
    pub open spec fn shows(self, col: int, row: int) -> bool {
        &&& 0 <= col
        &&& 0 <= row
        &&& self.origin.x + col < self.viewport_end().x
        &&& self.origin.y + row < self.viewport_end().y
    }

    /// The letter to draw in column `col` and row `row` of the viewport:
    /// the byte that the buffer holds there, if it is a letter of the
    /// font. Whitespace, control characters and other bytes draw nothing.
    pub open spec fn letter_in(self, col: int, row: int) -> Option<char> {
        if self.shows(col, row) {
            match self.cell(self.origin.x + col, self.origin.y + row) {
                Some(b) => if is_letter(b as char) {
                    Some(b as char)
                } else {
                    None
                },
                None => None,
            }
        } else {
            None
        }
    }

    /// The value of the pixel (`px`, `py`) after the visible text was
    /// drawn over the value `under`.
    pub open spec fn text_pixel(self, px: int, py: int, under: u32) -> u32 {
        let col = px / CHAR_WIDTH as int;
        let row = py / CHAR_HEIGHT as int;
        match self.letter_in(col, row) {
            Some(ch) => blit_value(
                self.font.sprite_of(ch),
                col * CHAR_WIDTH,
                row * CHAR_HEIGHT,
                px,
                py,
                under,
            ),
            None => under,
        }
    }

    /// The value of the pixel (`px`, `py`) after the character `ch` was
    /// drawn in the buffer cell `pos` over the value `under`. A cell
    /// outside the viewport and a character without a glyph draw nothing.
    pub open spec fn char_pixel(
        self,
        ch: char,
        pos: GridPosition,
        px: int,
        py: int,
        under: u32,
    ) -> u32 {
        if is_letter(ch) && pos.inside(self.origin, self.viewport_end()) {
            blit_value(
                self.font.sprite_of(ch),
                (pos.x - self.origin.x) * CHAR_WIDTH,
                (pos.y - self.origin.y) * CHAR_HEIGHT,
                px,
                py,
                under,
            )
        } else {
            under
        }
    }

    /// The screen after `ch` was drawn in the buffer cell `pos`.
    pub open spec fn with_char(self, ch: char, pos: GridPosition, before: Seq<u32>) -> Seq<u32> {
        Seq::new(
            before.len(),
            |i: int|
                self.char_pixel(ch, pos, i % self.width as int, i / self.width as int, before[i]),
        )
    }

    /// The screen after a frame was drawn: the visible text first, then
    /// the cursor `_` over it.
    pub open spec fn rendered(self, before: Seq<u32>) -> Seq<u32> {
        Seq::new(
            before.len(),
            |i: int|
                self.char_pixel(
                    '_',
                    self.cursor,
                    i % self.width as int,
                    i / self.width as int,
                    self.text_pixel(i % self.width as int, i / self.width as int, before[i]),
                ),
        )
    }

    /// Whether (`sx`, `sy`) is the top left pixel of a viewport cell that
    /// shows the letter at place `g` of the alphabet.
    pub open spec fn is_cell_of(self, g: int, sx: int, sy: int) -> bool {
        &&& sx % CHAR_WIDTH as int == 0
        &&& sy % CHAR_HEIGHT as int == 0
        &&& self.letter_in(sx / CHAR_WIDTH as int, sy / CHAR_HEIGHT as int) == Some(letter_at(g))
    }

    /// Every position in bucket `g` is a cell that shows letter `g`.
    pub open spec fn buckets_sound(self, cells: Seq<Vec<(usize, usize)>>) -> bool {
        forall|g: int, k: int|
            0 <= g < cells.len() && 0 <= k < cells[g]@.len() ==> self.is_cell_of(
                g,
                (#[trigger] cells[g]@[k]).0 as int,
                cells[g]@[k].1 as int,
            )
    }

    /// Every cell that shows a letter is in the bucket of that letter.
    pub open spec fn buckets_complete(self, cells: Seq<Vec<(usize, usize)>>) -> bool {
        forall|col: int, row: int|
            (#[trigger] self.letter_in(col, row)) is Some ==> holds(
                cells[letter_index(self.letter_in(col, row)->0)]@,
                col * CHAR_WIDTH,
                row * CHAR_HEIGHT,
            )
    }
}

/// Whether the position `a` comes before `b` in reading order: the upper
/// row first, and within a row from left to right.
pub open spec fn reads_before(a: (usize, usize), b: (usize, usize)) -> bool {
    a.1 < b.1 || (a.1 == b.1 && a.0 < b.0)
}

/// Every bucket lists its positions in reading order, each once.
pub open spec fn buckets_ordered(cells: Seq<Vec<(usize, usize)>>) -> bool {
    forall|g: int, j: int, k: int|
        0 <= g < cells.len() && 0 <= j < k < cells[g]@.len() ==> reads_before(
            #[trigger] cells[g]@[j],
            #[trigger] cells[g]@[k],
        )
}

/// Appends a position to one bucket.
fn add_position(cells: &mut Vec<Vec<(usize, usize)>>, g: usize, position: (usize, usize))
    requires
        g < old(cells)@.len(),
    ensures
        final(cells)@.len() == old(cells)@.len(),
        final(cells)@[g as int]@ == old(cells)@[g as int]@.push(position),
        forall|j: int| 0 <= j < old(cells)@.len() && j != g ==> final(cells)@[j] == old(cells)@[j],
{
    cells[g].push(position);
}

impl EditorView {
    /// Whether the scan of the visible cells, row by row, has passed the
    /// viewport cell (`col`, `row`) when it stands at the buffer cell
    /// (`x`, `y`).
    spec fn scanned(self, col: int, row: int, x: int, y: int) -> bool {
        self.origin.y + row < y || (self.origin.y + row == y && self.origin.x + col < x)
    }

    /// Every position in the buckets is a cell that the scan has passed.
    spec fn buckets_scanned(
        self,
        cells: Seq<Vec<(usize, usize)>>,
        x: int,
        y: int,
    ) -> bool {
        forall|g: int, k: int|
            0 <= g < cells.len() && 0 <= k < cells[g]@.len() ==> self.scanned(
                (#[trigger] cells[g]@[k]).0 as int / CHAR_WIDTH as int,
                cells[g]@[k].1 as int / CHAR_HEIGHT as int,
                x,
                y,
            )
    }

    /// Every scanned cell that shows a letter is in the bucket of that
    /// letter.
    spec fn buckets_complete_to(
        self,
        cells: Seq<Vec<(usize, usize)>>,
        x: int,
        y: int,
    ) -> bool {
        forall|col: int, row: int|
            (#[trigger] self.letter_in(col, row)) is Some && self.scanned(col, row, x, y) ==> holds(
                cells[letter_index(self.letter_in(col, row)->0)]@,
                col * CHAR_WIDTH,
                row * CHAR_HEIGHT,
            )
    }
}

/// The buckets stay what they are to be when the scan, standing at the
/// buffer cell (`x`, `y`) that shows a letter, appends the cell to the
/// bucket of that letter and moves on.
proof fn lemma_position_added(
    view: EditorView,
    before: Seq<Vec<(usize, usize)>>,
    after: Seq<Vec<(usize, usize)>>,
    place: int,
    position: (usize, usize),
    x: int,
    y: int,
)
    requires
        before.len() == after.len() == LETTER_COUNT,
        0 <= place < LETTER_COUNT,
        after[place]@ == before[place]@.push(position),
        forall|j: int| 0 <= j < before.len() && j != place ==> after[j] == before[j],
        view.origin.x <= x,
        view.origin.y <= y,
        position.0 == (x - view.origin.x) * CHAR_WIDTH,
        position.1 == (y - view.origin.y) * CHAR_HEIGHT,
        view.letter_in(x - view.origin.x, y - view.origin.y) == Some(letter_at(place)),
        view.buckets_sound(before),
        view.buckets_complete_to(before, x, y),
        view.buckets_scanned(before, x, y),
        buckets_ordered(before),
    ensures
        view.buckets_sound(after),
        view.buckets_complete_to(after, x + 1, y),
        view.buckets_scanned(after, x + 1, y),
        buckets_ordered(after),
{
    let col = x - view.origin.x;
    let row = y - view.origin.y;
    assert forall|g: int, k: int| 0 <= g < after.len() && 0 <= k < after[g]@.len() implies {
        &&& view.is_cell_of(g, (#[trigger] after[g]@[k]).0 as int, after[g]@[k].1 as int)
        &&& view.scanned(
            after[g]@[k].0 as int / CHAR_WIDTH as int,
            after[g]@[k].1 as int / CHAR_HEIGHT as int,
            x + 1,
            y,
        )
    } by {
        if g == place && k == before[g]@.len() {
            assert(after[g]@[k] == position);
        } else {
            assert(after[g]@[k] == before[g]@[k]);
            assert(view.scanned(
                before[g]@[k].0 as int / CHAR_WIDTH as int,
                before[g]@[k].1 as int / CHAR_HEIGHT as int,
                x,
                y,
            ));
        }
    }
    assert forall|g: int, j: int, k: int|
        0 <= g < after.len() && 0 <= j < k < after[g]@.len() implies reads_before(
        #[trigger] after[g]@[j],
        #[trigger] after[g]@[k],
    ) by {
        assert(after[g]@[j] == before[g]@[j]);
        if g == place && k == before[g]@.len() {
            assert(after[g]@[k] == position);
            assert(view.is_cell_of(g, before[g]@[j].0 as int, before[g]@[j].1 as int));
            assert(view.scanned(
                before[g]@[j].0 as int / CHAR_WIDTH as int,
                before[g]@[j].1 as int / CHAR_HEIGHT as int,
                x,
                y,
            ));
        } else {
            assert(after[g]@[k] == before[g]@[k]);
        }
    }
    assert forall|c: int, r: int|
        (#[trigger] view.letter_in(c, r)) is Some && view.scanned(c, r, x + 1, y) implies holds(
        after[letter_index(view.letter_in(c, r)->0)]@,
        c * CHAR_WIDTH,
        r * CHAR_HEIGHT,
    ) by {
        let at = letter_index(view.letter_in(c, r)->0);
        if c == col && r == row {
            assert(after[at]@[before[at]@.len() as int] == position);
        } else {
            assert(view.scanned(c, r, x, y));
            let k = choose|k: int|
                0 <= k < before[at]@.len() && (#[trigger] before[at]@[k]).0 == c * CHAR_WIDTH
                    && before[at]@[k].1 == r * CHAR_HEIGHT;
            assert(after[at]@[k] == before[at]@[k]);
        }
    }
}

/// Groups the visible cells by the letter they show: bucket `g` of the
/// result holds the top left pixel, relative to the screen, of every
/// viewport cell that shows the letter at place `g` of the alphabet, in
/// reading order.
pub(crate) fn collect_cells(
    text: &Vec<Vec<u8>>,
    origin: GridPosition,
    end: GridPosition,
    Ghost(view): Ghost<EditorView>,
) -> (cells: Vec<Vec<(usize, usize)>>)
    requires
        view.lines == rows_view(text@),
        view.origin == origin,
        view.viewport_end() == end,
        view.columns * CHAR_WIDTH <= usize::MAX,
        view.rows * CHAR_HEIGHT <= usize::MAX,
    ensures
        cells@.len() == LETTER_COUNT,
        view.buckets_sound(cells@),
        view.buckets_complete(cells@),
        buckets_ordered(cells@),
{
    let mut cells: Vec<Vec<(usize, usize)>> = Vec::new();
    let mut g: usize = 0;
    while g < LETTER_COUNT
        invariant
            g <= LETTER_COUNT,
            cells@.len() == g,
            forall|j: int| 0 <= j < g ==> (#[trigger] cells@[j])@.len() == 0,
        decreases LETTER_COUNT - g,
    {
        cells.push(Vec::new());
        g += 1;
    }
    let ox = origin.x as usize;
    let oy = origin.y as usize;
    let rows_end = if (end.y as usize) < text.len() {
        end.y as usize
    } else {
        text.len()
    };
    let mut y = oy;
    while y < rows_end
        invariant
            view.lines == rows_view(text@),
            view.origin == origin,
            view.viewport_end() == end,
            view.columns * CHAR_WIDTH <= usize::MAX,
            view.rows * CHAR_HEIGHT <= usize::MAX,
            ox == origin.x,
            oy == origin.y,
            oy <= y,
            rows_end <= text@.len(),
            rows_end <= end.y,
            cells@.len() == LETTER_COUNT,
            view.buckets_sound(cells@),
            view.buckets_complete_to(cells@, ox as int, y as int),
            view.buckets_scanned(cells@, ox as int, y as int),
            buckets_ordered(cells@),
        decreases rows_end - y,
    {
        let line = &text[y];
        let cols_end = if (end.x as usize) < line.len() {
            end.x as usize
        } else {
            line.len()
        };
        let mut x = ox;
        while x < cols_end
            invariant
                view.lines == rows_view(text@),
                view.origin == origin,
                view.viewport_end() == end,
                view.columns * CHAR_WIDTH <= usize::MAX,
                view.rows * CHAR_HEIGHT <= usize::MAX,
                ox == origin.x,
                oy == origin.y,
                oy <= y < rows_end,
                ox <= x,
                rows_end <= text@.len(),
                rows_end <= end.y,
                *line == text@[y as int],
                cols_end <= line@.len(),
                cols_end <= end.x,
                cells@.len() == LETTER_COUNT,
                view.buckets_sound(cells@),
                view.buckets_complete_to(cells@, x as int, y as int),
                view.buckets_scanned(cells@, x as int, y as int),
                buckets_ordered(cells@),
            decreases cols_end - x,
        {
            let b = line[x];
            if 33 <= b && b <= 126 {
                let ghost before = cells@;
                let place = (b - 33) as usize;
                let position = ((x - ox) * CHAR_WIDTH, (y - oy) * CHAR_HEIGHT);
                add_position(&mut cells, place, position);
                proof {
                    assert(view.cell(x as int, y as int) == Some(b));
                    assert(letter_at(place as int) == b as char);
                    lemma_position_added(
                        view,
                        before,
                        cells@,
                        place as int,
                        position,
                        x as int,
                        y as int,
                    );
                }
            } else {
                assert(view.cell(x as int, y as int) == Some(b));
                assert(view.letter_in(x - ox, y - oy) is None);
            }
            x += 1;
        }
        assert(view.buckets_scanned(cells@, ox as int, y + 1));
        assert(view.buckets_complete_to(cells@, ox as int, y + 1));
        y += 1;
    }
    assert(view.buckets_complete(cells@));
    cells
}

/// The left edge of the cell that holds the pixel column `px`.
spec fn cell_left(px: int) -> int {
    px / CHAR_WIDTH as int * CHAR_WIDTH
}

/// The top edge of the cell that holds the pixel row `py`.
spec fn cell_top(py: int) -> int {
    py / CHAR_HEIGHT as int * CHAR_HEIGHT
}

/// The value of the pixel (`px`, `py`) after a sprite was drawn into the
/// cells at the given positions, over the value `under`.
spec fn stamped(
    sprite: LetterSprite,
    positions: Seq<(usize, usize)>,
    px: int,
    py: int,
    under: u32,
) -> u32 {
    if holds(positions, cell_left(px), cell_top(py)) {
        blit_value(sprite, cell_left(px), cell_top(py), px, py, under)
    } else {
        under
    }
}

/// Drawing the sprite into the cell at position `k`, over a pixel that
/// shows the cells before `k`, gives a pixel that shows the cells up to and
/// with `k`: the cell of the pixel takes the sprite, and other cells stay.
proof fn lemma_cell_painted(
    sprite: LetterSprite,
    positions: Seq<(usize, usize)>,
    k: int,
    px: int,
    py: int,
    under: u32,
)
    requires
        0 <= k < positions.len(),
        positions[k].0 % CHAR_WIDTH == 0,
        positions[k].1 % CHAR_HEIGHT == 0,
    ensures
        stamped(sprite, positions.take(k + 1), px, py, under) == blit_value(
            sprite,
            positions[k].0 as int,
            positions[k].1 as int,
            px,
            py,
            stamped(sprite, positions.take(k), px, py, under),
        ),
{
    let done = positions.take(k);
    let next = positions.take(k + 1);
    let position = positions[k];
    if cell_left(px) == position.0 && cell_top(py) == position.1 {
        assert(next[k] == position);
        assert(holds(next, cell_left(px), cell_top(py)));
    } else {
        if holds(done, cell_left(px), cell_top(py)) {
            let j = choose|j: int|
                0 <= j < done.len() && (#[trigger] done[j]).0 == cell_left(px) && done[j].1
                    == cell_top(py);
            assert(next[j] == done[j]);
            assert(holds(next, cell_left(px), cell_top(py)));
        }
        if holds(next, cell_left(px), cell_top(py)) {
            let j = choose|j: int|
                0 <= j < next.len() && (#[trigger] next[j]).0 == cell_left(px) && next[j].1
                    == cell_top(py);
            assert(j < k);
            assert(done[j] == next[j]);
            assert(holds(done, cell_left(px), cell_top(py)));
        }
    }
}

/// Draws one sprite at every position of a list. Each position is the top
/// left pixel of a cell of the character grid.
fn paint_letter(
    sprite: &LetterSprite,
    positions: &Vec<(usize, usize)>,
    screen: &mut [u32],
    width: usize,
    height: usize,
)
    requires
        old(screen)@.len() >= width * height,
        forall|k: int|
            0 <= k < positions@.len() ==> {
                &&& (#[trigger] positions@[k]).0 % CHAR_WIDTH == 0
                &&& positions@[k].1 % CHAR_HEIGHT == 0
                &&& positions@[k].0 + CHAR_WIDTH <= width
                &&& positions@[k].1 + CHAR_HEIGHT <= height
            },
    ensures
        final(screen)@.len() == old(screen)@.len(),
        forall|px: int, py: int|
            0 <= px < width && 0 <= py < height ==> #[trigger] pixel(
                final(screen)@,
                width as int,
                px,
                py,
            ) == if holds(positions@, cell_left(px), cell_top(py)) {
                blit_value(
                    *sprite,
                    cell_left(px),
                    cell_top(py),
                    px,
                    py,
                    pixel(old(screen)@, width as int, px, py),
                )
            } else {
                pixel(old(screen)@, width as int, px, py)
            },
        same_from(final(screen)@, old(screen)@, width * height),
{
    let ghost before = screen@;
    let ghost w = width as int;
    let ghost h = height as int;
    let mut k: usize = 0;
    while k < positions.len()
        invariant
            k <= positions@.len(),
            before == old(screen)@,
            w == width,
            h == height,
            screen@.len() == before.len(),
            w * h <= before.len(),
            same_from(screen@, before, w * h),
            forall|j: int|
                0 <= j < positions@.len() ==> {
                    &&& (#[trigger] positions@[j]).0 % CHAR_WIDTH == 0
                    &&& positions@[j].1 % CHAR_HEIGHT == 0
                    &&& positions@[j].0 + CHAR_WIDTH <= width
                    &&& positions@[j].1 + CHAR_HEIGHT <= height
                },
            forall|px: int, py: int|
                0 <= px < w && 0 <= py < h ==> #[trigger] pixel(screen@, w, px, py) == if holds(
                    positions@.take(k as int),
                    cell_left(px),
                    cell_top(py),
                ) {
                    blit_value(
                        *sprite,
                        cell_left(px),
                        cell_top(py),
                        px,
                        py,
                        pixel(before, w, px, py),
                    )
                } else {
                    pixel(before, w, px, py)
                },
        decreases positions@.len() - k,
    {
        let position = positions[k];
        let ghost current = screen@;
        blit(sprite, screen, width, height, position.0, position.1);
        assert forall|px: int, py: int| 0 <= px < w && 0 <= py < h implies #[trigger] pixel(
            screen@,
            w,
            px,
            py,
        ) == stamped(*sprite, positions@.take(k + 1), px, py, pixel(before, w, px, py)) by {
            lemma_cell_painted(*sprite, positions@, k as int, px, py, pixel(before, w, px, py));
            assert(pixel(current, w, px, py) == stamped(
                *sprite,
                positions@.take(k as int),
                px,
                py,
                pixel(before, w, px, py),
            ));
        }
        k += 1;
    }
    assert(positions@.take(k as int) =~= positions@);
}

impl EditorView {
    /// The value of the pixel (`px`, `py`) after the visible letters at
    /// alphabet places below `g` were drawn over the value `under`.
    spec fn text_pixel_upto(self, g: int, px: int, py: int, under: u32) -> u32 {
        let col = px / CHAR_WIDTH as int;
        let row = py / CHAR_HEIGHT as int;
        match self.letter_in(col, row) {
            Some(ch) => if letter_index(ch) < g {
                blit_value(
                    self.font.sprite_of(ch),
                    col * CHAR_WIDTH,
                    row * CHAR_HEIGHT,
                    px,
                    py,
                    under,
                )
            } else {
                under
            },
            None => under,
        }
    }

    /// Whether `height` rows of pixels, each as wide as the screen, hold
    /// the viewport's whole cells.
    pub open spec fn fits(self, height: int) -> bool {
        &&& self.columns * CHAR_WIDTH <= self.width
        &&& self.rows * CHAR_HEIGHT <= height
    }

    /// The pixel rows that the viewport's cells take.
    pub open spec fn painted_rows(self) -> int {
        self.rows * CHAR_HEIGHT
    }

    /// The length that a framebuffer needs for a frame: the pixel rows that
    /// the viewport's cells take, each as wide as the screen.
    pub open spec fn painted_len(self) -> int {
        self.width * self.painted_rows()
    }
}

/// Every position in a bucket is the corner of a cell, and the whole cell
/// lies in the `height` rows of pixels that hold the viewport.
proof fn lemma_bucket_fits(view: EditorView, cells: Seq<Vec<(usize, usize)>>, g: int, height: int)
    requires
        0 <= g < cells.len(),
        view.buckets_sound(cells),
        view.fits(height),
    ensures
        forall|k: int|
            0 <= k < cells[g]@.len() ==> {
                &&& (#[trigger] cells[g]@[k]).0 % CHAR_WIDTH == 0
                &&& cells[g]@[k].1 % CHAR_HEIGHT == 0
                &&& cells[g]@[k].0 + CHAR_WIDTH <= view.width
                &&& cells[g]@[k].1 + CHAR_HEIGHT <= height
            },
{
    assert forall|k: int| 0 <= k < cells[g]@.len() implies {
        &&& (#[trigger] cells[g]@[k]).0 % CHAR_WIDTH == 0
        &&& cells[g]@[k].1 % CHAR_HEIGHT == 0
        &&& cells[g]@[k].0 + CHAR_WIDTH <= view.width
        &&& cells[g]@[k].1 + CHAR_HEIGHT <= height
    } by {
        assert(view.is_cell_of(g, cells[g]@[k].0 as int, cells[g]@[k].1 as int));
    }
}

/// What one pixel shows once the letter at place `g` is drawn into the
/// cells of its bucket, over a pixel that shows the letters before `g`:
/// the letters up to and with `g`.
proof fn lemma_letter_painted_at(
    view: EditorView,
    cells: Seq<Vec<(usize, usize)>>,
    g: int,
    px: int,
    py: int,
    under: u32,
)
    requires
        0 <= g < LETTER_COUNT,
        cells.len() == LETTER_COUNT,
        view.buckets_sound(cells),
        view.buckets_complete(cells),
        0 <= px,
        0 <= py,
    ensures
        view.text_pixel_upto(g + 1, px, py, under) == if holds(
            cells[g]@,
            cell_left(px),
            cell_top(py),
        ) {
            blit_value(
                view.font.sprite_of(letter_at(g)),
                cell_left(px),
                cell_top(py),
                px,
                py,
                view.text_pixel_upto(g, px, py, under),
            )
        } else {
            view.text_pixel_upto(g, px, py, under)
        },
{
    let col = px / CHAR_WIDTH as int;
    let row = py / CHAR_HEIGHT as int;
    let shown = view.letter_in(col, row);
    if holds(cells[g]@, cell_left(px), cell_top(py)) {
        let k = choose|k: int|
            0 <= k < cells[g]@.len() && (#[trigger] cells[g]@[k]).0 == cell_left(px)
                && cells[g]@[k].1 == cell_top(py);
        assert(view.is_cell_of(g, cells[g]@[k].0 as int, cells[g]@[k].1 as int));
        assert(shown == Some(letter_at(g)));
    } else {
        if shown is Some && letter_index(shown->0) == g {
            assert(holds(
                cells[letter_index(view.letter_in(col, row)->0)]@,
                col * CHAR_WIDTH,
                row * CHAR_HEIGHT,
            ));
        }
    }
}

/// Drawing the letter at place `g` into the cells of its bucket, over a
/// screen that shows the letters before `g`, gives a screen that shows the
/// letters up to and with `g`.
proof fn lemma_letter_painted(
    view: EditorView,
    cells: Seq<Vec<(usize, usize)>>,
    g: int,
    w: int,
    h: int,
    before: Seq<u32>,
    current: Seq<u32>,
    after: Seq<u32>,
)
    requires
        0 <= g < LETTER_COUNT,
        cells.len() == LETTER_COUNT,
        view.buckets_sound(cells),
        view.buckets_complete(cells),
        forall|px: int, py: int|
            0 <= px < w && 0 <= py < h ==> #[trigger] pixel(current, w, px, py)
                == view.text_pixel_upto(g, px, py, pixel(before, w, px, py)),
        forall|px: int, py: int|
            0 <= px < w && 0 <= py < h ==> #[trigger] pixel(after, w, px, py) == if holds(
                cells[g]@,
                cell_left(px),
                cell_top(py),
            ) {
                blit_value(
                    view.font.sprite_of(letter_at(g)),
                    cell_left(px),
                    cell_top(py),
                    px,
                    py,
                    pixel(current, w, px, py),
                )
            } else {
                pixel(current, w, px, py)
            },
    ensures
        forall|px: int, py: int|
            0 <= px < w && 0 <= py < h ==> #[trigger] pixel(after, w, px, py)
                == view.text_pixel_upto(g + 1, px, py, pixel(before, w, px, py)),
{
    assert forall|px: int, py: int| 0 <= px < w && 0 <= py < h implies #[trigger] pixel(
        after,
        w,
        px,
        py,
    ) == view.text_pixel_upto(g + 1, px, py, pixel(before, w, px, py)) by {
        lemma_letter_painted_at(view, cells, g, px, py, pixel(before, w, px, py));
        assert(pixel(current, w, px, py) == view.text_pixel_upto(
            g,
            px,
            py,
            pixel(before, w, px, py),
        ));
    }
}

/// Draws the visible text, letter by letter: for each letter of the
/// alphabet its sprite is drawn into every cell of its bucket.
pub(crate) fn paint_cells(
    font: &Font,
    cells: &Vec<Vec<(usize, usize)>>,
    screen: &mut [u32],
    width: usize,
    height: usize,
    Ghost(view): Ghost<EditorView>,
)
    requires
        font.wf(),
        view.font == *font,
        view.width == width,
        view.fits(height as int),
        old(screen)@.len() >= width * height,
        cells@.len() == LETTER_COUNT,
        view.buckets_sound(cells@),
        view.buckets_complete(cells@),
    ensures
        final(screen)@.len() == old(screen)@.len(),
        forall|px: int, py: int|
            0 <= px < width && 0 <= py < height ==> #[trigger] pixel(
                final(screen)@,
                width as int,
                px,
                py,
            ) == view.text_pixel(px, py, pixel(old(screen)@, width as int, px, py)),
        same_from(final(screen)@, old(screen)@, width * height),
{
    let ghost before = screen@;
    let ghost w = width as int;
    let ghost h = height as int;
    let mut g: usize = 0;
    while g < LETTER_COUNT
        invariant
            g <= LETTER_COUNT,
            font.wf(),
            view.font == *font,
            view.width == width,
            view.fits(height as int),
            before == old(screen)@,
            w == width,
            h == height,
            screen@.len() == before.len(),
            w * h <= before.len(),
            same_from(screen@, before, w * h),
            cells@.len() == LETTER_COUNT,
            view.buckets_sound(cells@),
            view.buckets_complete(cells@),
            forall|px: int, py: int|
                0 <= px < w && 0 <= py < h ==> #[trigger] pixel(screen@, w, px, py)
                    == view.text_pixel_upto(g as int, px, py, pixel(before, w, px, py)),
        decreases LETTER_COUNT - g,
    {
        let letter = Font::letter_for(g);
        let sprite = font.letter(letter);
        let positions = &cells[g];
        let ghost current = screen@;
        proof {
            lemma_bucket_fits(view, cells@, g as int, h);
        }
        paint_letter(sprite, positions, screen, width, height);
        proof {
            lemma_letter_painted(view, cells@, g as int, w, h, before, current, screen@);
        }
        g += 1;
    }
}

/// Draws the character `ch` into the buffer cell `pos`, if the viewport
/// from `origin` to `end` shows that cell and the font has a glyph for
/// `ch`.
pub(crate) fn paint_char(
    font: &Font,
    origin: GridPosition,
    end: GridPosition,
    ch: char,
    pos: GridPosition,
    screen: &mut [u32],
    width: usize,
    height: usize,
    Ghost(view): Ghost<EditorView>,
)
    requires
        font.wf(),
        view.font == *font,
        view.origin == origin,
        view.viewport_end() == end,
        view.width == width,
        view.fits(height as int),
        old(screen)@.len() >= width * height,
    ensures
        final(screen)@ == view.with_char(ch, pos, old(screen)@),
{
    let ghost before = screen@;
    let ghost w = width as int;
    let ghost h = height as int;
    if !pos.is_inside(&origin, &end) {
        return ;
    }
    let sprite = match font.lookup(ch) {
        Some(sprite) => sprite,
        None => {
            return ;
        },
    };
    let x0 = (pos.x - origin.x) as usize * CHAR_WIDTH;
    let y0 = (pos.y - origin.y) as usize * CHAR_HEIGHT;
    blit(sprite, screen, width, height, x0, y0);
    assert forall|i: int| 0 <= i < before.len() implies screen@[i] == view.with_char(
        ch,
        pos,
        before,
    )[i] by {
        if i < w * h {
            lemma_pixel_of_index(w, h, i);
            assert(screen@[i] == pixel(screen@, w, i % w, i / w));
        } else {
            lemma_row_past(w, h, i);
        }
    }
}

/// A screen of whole pixel rows holds the pixel rows that the viewport's
/// cells take: a framebuffer of the screen's size is long enough for a
/// frame.
pub proof fn lemma_screen_holds_frame(state: EditorView)
    requires
        state.rows == state.height / CHAR_HEIGHT as nat,
    ensures
        state.painted_len() <= state.width * state.height,
{
    assert(state.width * (state.rows * CHAR_HEIGHT) <= state.width * state.height)
        by (nonlinear_arith)
        requires
            state.rows * CHAR_HEIGHT <= state.height,
    ;
}

/// Past the pixel rows that the viewport's cells take, neither the text
/// nor a character drawn into a cell changes the framebuffer.
pub proof fn lemma_past_viewport(
    state: EditorView,
    ch: char,
    pos: GridPosition,
    i: int,
    under: u32,
)
    requires
        state.columns * CHAR_WIDTH <= state.width,
        state.painted_len() <= i,
    ensures
        state.text_pixel(i % state.width as int, i / state.width as int, under) == under,
        state.char_pixel(ch, pos, i % state.width as int, i / state.width as int, under)
            == under,
{
    if state.width > 0 {
        lemma_row_past(state.width as int, state.painted_rows(), i);
    }
}

/// What drawing a character into a visible cell does to the pixel in
/// column `x` of row `y` of that cell: the pixel takes the glyph's colour
/// there, and stays as it was where that colour is zero. This holds for a
/// framebuffer of any length that holds the pixel.
pub proof fn lemma_draw_char_pixel(
    state: EditorView,
    ch: char,
    pos: GridPosition,
    before: Seq<u32>,
    x: int,
    y: int,
)
    requires
        state.columns * CHAR_WIDTH <= state.width,
        is_letter(ch),
        pos.inside(state.origin, state.viewport_end()),
        0 <= x < CHAR_WIDTH,
        0 <= y < CHAR_HEIGHT,
        ((pos.y - state.origin.y) * CHAR_HEIGHT + y) * state.width + (pos.x - state.origin.x)
            * CHAR_WIDTH + x < before.len(),
    ensures
        ({
            let at = ((pos.y - state.origin.y) * CHAR_HEIGHT + y) * state.width + (pos.x
                - state.origin.x) * CHAR_WIDTH + x;
            let ink = state.font.sprite_of(ch).at(x, y).packed();
            &&& 0 <= at
            &&& state.with_char(ch, pos, before)[at] == if ink != 0 {
                ink
            } else {
                before[at]
            }
        }),
{
    let px = (pos.x - state.origin.x) * CHAR_WIDTH + x;
    let py = (pos.y - state.origin.y) * CHAR_HEIGHT + y;
    lemma_pixel_index(state.width as int, py + 1, px, py);
    reveal(pixel_index);
}

/// A glyph pixel whose packed colour is zero never overwrites the screen,
/// wherever the glyph is drawn.
pub proof fn lemma_zero_is_transparent(
    sprite: LetterSprite,
    x0: int,
    y0: int,
    px: int,
    py: int,
    under: u32,
)
    ensures
        sprite.at(px - x0, py - y0).packed() == 0 ==> blit_value(sprite, x0, y0, px, py, under)
            == under,
        blit_value(sprite, x0, y0, px, py, under) == under || blit_value(
            sprite,
            x0,
            y0,
            px,
            py,
            under,
        ) != 0,
{
}

/// What a frame does to the pixel at place `i` of the framebuffer, in
/// column `px` of row `py`.
///
/// The cursor is drawn last: where it is visible and the pixel lies in its
/// cell, a pixel of the cursor glyph that has a colour replaces whatever
/// was there, text included. Where the cursor glyph is transparent or the
/// cursor is elsewhere, the pixel shows the text: the colour of the letter
/// in its cell, or, where no letter is drawn there or the letter's glyph
/// is transparent, the value the pixel had before. So a pixel either keeps
/// its value or takes a colour that is not zero.
pub proof fn lemma_render_occlusion(state: EditorView, before: Seq<u32>, i: int)
    requires
        0 <= i < before.len(),
    ensures
        ({
            let px = i % state.width as int;
            let py = i / state.width as int;
            let col = px / CHAR_WIDTH as int;
            let row = py / CHAR_HEIGHT as int;
            let under_cursor = state.cursor.inside(state.origin, state.viewport_end()) && col
                == state.cursor.x - state.origin.x && row == state.cursor.y - state.origin.y;
            let cursor_ink = state.font.sprite_of('_').at(
                px - col * CHAR_WIDTH,
                py - row * CHAR_HEIGHT,
            ).packed();
            let letter = state.letter_in(col, row);
            let letter_ink = state.font.sprite_of(letter->0).at(
                px - col * CHAR_WIDTH,
                py - row * CHAR_HEIGHT,
            ).packed();
            let after = state.rendered(before)[i];
            &&& under_cursor && cursor_ink != 0 ==> after == cursor_ink
            &&& !(under_cursor && cursor_ink != 0) && letter is Some && letter_ink != 0 ==> after
                == letter_ink
            &&& !(under_cursor && cursor_ink != 0) && (letter is None || letter_ink == 0)
                ==> after == before[i]
            &&& after == before[i] || after != 0
        }),
{
}

} // verus!
