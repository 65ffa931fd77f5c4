//! The editor's state: a lazily grown text buffer, a cursor, a viewport
//! that follows the cursor, and the mode that gates typing.

use vstd::prelude::*;
use vstd::utf8::encode_utf8;
use crate::common::GridPosition;
use crate::font::{Font, LETTER_COUNT};
use crate::glyph::{CHAR_HEIGHT, CHAR_WIDTH};
use crate::lines::{lines_of, rows_view, split_lines};
use crate::render::{
    buckets_ordered, collect_cells, lemma_past_viewport, lemma_pixel_of_index, paint_cells,
    paint_char, pixel,
};

verus! {

/// Rows that the viewport keeps between the cursor and its top and bottom
/// edge.
pub const SCROLL_MARGIN: u32 = 3;

/// The byte that pads a line.
pub const SPACE: u8 = 0x20;

/// Whether the editor takes keystrokes as text.
#[derive(Debug, Copy, Clone, PartialEq, Eq, Structural)]
pub enum EditorMode {
    Normal,
    Insert,
}

/// The characters that the keyboard types: ASCII letters, digits,
/// punctuation and the space.
pub open spec fn is_typable(ch: char) -> bool {
    0x20 <= ch as u32 <= 0x7e
}

/// The characters that a row can hold: those of one byte, which are the
/// ASCII characters, control characters included.
pub open spec fn is_single_byte(ch: char) -> bool {
    ch as u32 <= 0x7f
}

/// `lines`, with empty rows appended until row `row` exists.
pub open spec fn grown(lines: Seq<Seq<u8>>, row: int) -> Seq<Seq<u8>> {
    if lines.len() <= row {
        lines + Seq::new((row + 1 - lines.len()) as nat, |i: int| Seq::<u8>::empty())
    } else {
        lines
    }
}

/// `line`, with spaces appended until it reaches column `col`.
pub open spec fn padded(line: Seq<u8>, col: int) -> Seq<u8> {
    if line.len() < col {
        line + Seq::new((col - line.len()) as nat, |i: int| SPACE)
    } else {
        line
    }
}

/// The mathematical state of an editor.
pub struct EditorView {
    /// The rows of the text buffer.
    pub lines: Seq<Seq<u8>>,
    /// The cursor, in buffer coordinates.
    pub cursor: GridPosition,
    /// The buffer cell shown in the top left corner of the screen.
    pub origin: GridPosition,
    /// The viewport's width in cells.
    pub columns: nat,
    /// The viewport's height in cells.
    pub rows: nat,
    /// The screen's width in pixels.
    pub width: nat,
    /// The screen's height in pixels.
    pub height: nat,
    pub mode: EditorMode,
    pub font: Font,
}

impl EditorView {
    /// The state after the cursor has moved to `cursor`.
    pub open spec fn with_cursor(self, cursor: GridPosition) -> EditorView {
        EditorView { cursor, ..self }
    }

    /// The state after `ch` was typed: nothing changes outside insert mode
    /// or for a character of more than one byte. Otherwise the buffer
    /// grows to the cursor's row, the row is padded with spaces to the
    /// cursor's column, `ch` is inserted there and the cursor moves one
    /// column on.
    pub open spec fn type_char(self, ch: char) -> EditorView {
        if self.mode == EditorMode::Insert && is_single_byte(ch) {
            let x = self.cursor.x as int;
            let y = self.cursor.y as int;
            let rows = grown(self.lines, y);
            EditorView {
                lines: rows.update(y, padded(rows[y], x).insert(x, ch as u8)),
                cursor: GridPosition { x: self.cursor.x.saturating_add(1), y: self.cursor.y },
                ..self
            }
        } else {
            self
        }
    }

    /// The state after the character under the cursor was removed, if
    /// there is one.
    pub open spec fn delete(self) -> EditorView {
        let x = self.cursor.x as int;
        let y = self.cursor.y as int;
        if y < self.lines.len() && x < self.lines[y].len() {
            EditorView { lines: self.lines.update(y, self.lines[y].remove(x)), ..self }
        } else {
            self
        }
    }

    /// The state after the cursor stepped back one column and the
    /// character there was removed; unchanged in column 0.
    pub open spec fn backspace(self) -> EditorView {
        if self.cursor.x >= 1 {
            self.with_cursor(
                GridPosition { x: (self.cursor.x - 1) as u32, y: self.cursor.y },
            ).delete()
        } else {
            self
        }
    }

    /// The state after the cursor went to the start of the next row.
    pub open spec fn newline(self) -> EditorView {
        self.with_cursor(GridPosition { x: 0, y: self.cursor.y.saturating_add(1) })
    }

    pub open spec fn move_left(self, amount: u32) -> EditorView {
        self.with_cursor(
            GridPosition { x: self.cursor.x.saturating_sub(amount), y: self.cursor.y },
        )
    }

    pub open spec fn move_right(self, amount: u32) -> EditorView {
        self.with_cursor(
            GridPosition { x: self.cursor.x.saturating_add(amount), y: self.cursor.y },
        )
    }

    /// Whether a cursor that arrived in row `row` from below pulls the
    /// viewport up: it is within the margin of the top edge, and the
    /// viewport is not at the first row of the buffer.
    pub open spec fn scrolls_up(self, row: u32) -> bool {
        row < self.origin.y + SCROLL_MARGIN && self.origin.y > 0
    }

    /// Whether a cursor that arrived in row `row` from above pushes the
    /// viewport down: it is past the bottom edge less the margin.
    pub open spec fn scrolls_down(self, row: u32) -> bool {
        row > self.origin.y + self.rows - SCROLL_MARGIN
    }

    /// The state after the cursor moved up, with the viewport following by
    /// at most one row.
    pub open spec fn move_up(self, amount: u32) -> EditorView {
        let row = self.cursor.y.saturating_sub(amount);
        EditorView {
            cursor: GridPosition { x: self.cursor.x, y: row },
            origin: GridPosition {
                x: self.origin.x,
                y: if self.scrolls_up(row) {
                    (self.origin.y - 1) as u32
                } else {
                    self.origin.y
                },
            },
            ..self
        }
    }

    /// The state after the cursor moved down, with the viewport following
    /// by at most one row.
    pub open spec fn move_down(self, amount: u32) -> EditorView {
        let row = self.cursor.y.saturating_add(amount);
        EditorView {
            cursor: GridPosition { x: self.cursor.x, y: row },
            origin: GridPosition {
                x: self.origin.x,
                y: if self.scrolls_down(row) {
                    self.origin.y.saturating_add(1)
                } else {
                    self.origin.y
                },
            },
            ..self
        }
    }

    /// The state after the lines of `text` were appended to the buffer.
    pub open spec fn append_text(self, text: Seq<u8>) -> EditorView {
        EditorView { lines: self.lines + split_lines(text), ..self }
    }
}

/// A text editor for a screen of fixed size.
pub struct Editor {
    cursor: GridPosition,
    viewport_position: GridPosition,
    /// Columns and rows of the viewport.
    viewport_size: (usize, usize),
    font: Font,
    screen_width: usize,
    screen_height: usize,
    /// The rows of the buffer. A row holds single-byte characters, one to
    /// a column, so that a column is an index into its row.
    text: Vec<Vec<u8>>,
    pub mode: EditorMode,
}

impl View for Editor {
    type V = EditorView;

    closed spec fn view(&self) -> EditorView {
        EditorView {
            lines: rows_view(self.text@),
            cursor: self.cursor,
            origin: self.viewport_position,
            columns: self.viewport_size.0 as nat,
            rows: self.viewport_size.1 as nat,
            width: self.screen_width as nat,
            height: self.screen_height as nat,
            mode: self.mode,
            font: self.font,
        }
    }
}

/// Appends empty rows until row `row` exists.
fn grow_rows(text: &mut Vec<Vec<u8>>, row: usize)
    ensures
        rows_view(final(text)@) == grown(rows_view(old(text)@), row as int),
        row < final(text)@.len(),
{
    let ghost before = rows_view(text@);
    while text.len() <= row
        invariant
            before == rows_view(old(text)@),
            before.len() <= text@.len(),
            text@.len() <= row + 1 || text@.len() == before.len(),
            rows_view(text@) == before + Seq::new(
                (text@.len() - before.len()) as nat,
                |i: int| Seq::<u8>::empty(),
            ),
        decreases row + 1 - text@.len(),
    {
        let ghost current = rows_view(text@);
        text.push(Vec::new());
        assert(rows_view(text@) =~= current.push(Seq::<u8>::empty()));
    }
}

/// Appends spaces until the line reaches column `col`.
fn pad_line(line: &mut Vec<u8>, col: usize)
    ensures
        final(line)@ == padded(old(line)@, col as int),
        col <= final(line)@.len(),
{
    let ghost before = line@;
    while line.len() < col
        invariant
            before == old(line)@,
            before.len() <= line@.len(),
            line@.len() <= col || line@.len() == before.len(),
            line@ == before + Seq::new((line@.len() - before.len()) as nat, |i: int| SPACE),
        decreases col - line@.len(),
    {
        line.push(SPACE);
    }
}

impl Editor {
    /// What every editor satisfies: the viewport holds as many whole cells
    /// as fit on the screen.
    pub open spec fn wf(&self) -> bool {
        &&& self@.font.wf()
        &&& self@.columns == self@.width / CHAR_WIDTH as nat
        &&& self@.rows == self@.height / CHAR_HEIGHT as nat
    }

    /// An editor with an empty buffer for a screen of the given size in
    /// pixels, in normal mode, with cursor and viewport at the origin.
    pub fn new(screen_width: usize, screen_height: usize, font: Font) -> (editor: Self)
        requires
            font.wf(),
        ensures
            editor.wf(),
            editor@ == (EditorView {
                lines: Seq::empty(),
                cursor: GridPosition { x: 0, y: 0 },
                origin: GridPosition { x: 0, y: 0 },
                columns: screen_width as nat / CHAR_WIDTH as nat,
                rows: screen_height as nat / CHAR_HEIGHT as nat,
                width: screen_width as nat,
                height: screen_height as nat,
                mode: EditorMode::Normal,
                font,
            }),
    {
        let editor = Self {
            cursor: GridPosition::new(0, 0),
            viewport_position: GridPosition::new(0, 0),
            viewport_size: (screen_width / CHAR_WIDTH, screen_height / CHAR_HEIGHT),
            font,
            screen_width,
            screen_height,
            text: Vec::new(),
            mode: EditorMode::Normal,
        };
        assert(editor@.lines =~= Seq::<Seq<u8>>::empty());
        editor
    }

    /// The mode the editor is in.
    pub fn current_mode(&self) -> (mode: EditorMode)
        ensures
            mode == self@.mode,
    {
        self.mode
    }

    /// The cursor, in buffer coordinates.
    pub fn cursor(&self) -> (cursor: GridPosition)
        ensures
            cursor == self@.cursor,
    {
        self.cursor
    }

    /// The buffer cell shown in the top left corner of the screen.
    pub fn viewport_position(&self) -> (origin: GridPosition)
        ensures
            origin == self@.origin,
    {
        self.viewport_position
    }

    /// The viewport's width and height in cells.
    pub fn viewport_size(&self) -> (size: (usize, usize))
        ensures
            size.0 == self@.columns,
            size.1 == self@.rows,
    {
        self.viewport_size
    }

    /// The number of rows in the buffer.
    pub fn line_count(&self) -> (count: usize)
        ensures
            count == self@.lines.len(),
    {
        self.text.len()
    }

    /// Row `row` of the buffer, if the buffer reaches that far.
    pub fn line(&self, row: usize) -> (line: Option<&Vec<u8>>)
        ensures
            match line {
                Some(bytes) => row < self@.lines.len() && bytes@ == self@.lines[row as int],
                None => row >= self@.lines.len(),
            },
    {
        if row < self.text.len() {
            Some(&self.text[row])
        } else {
            None
        }
    }

    /// Whether `ch` is a character that the keyboard types, as opposed to
    /// a control character or one outside ASCII.
    pub fn accepts(ch: char) -> (r: bool)
        ensures
            r == is_typable(ch),
    {
        let code = ch as u32;
        0x20 <= code && code <= 0x7e
    }

    /// Types `ch` at the cursor. Does nothing outside insert mode, or for
    /// a character of more than one byte, which a row cannot hold.
    pub fn type_char(&mut self, ch: char)
        ensures
            final(self)@ == old(self)@.type_char(ch),
            old(self).wf() ==> final(self).wf(),
    {
        if self.mode != EditorMode::Insert || ch as u32 > 0x7f {
            return ;
        }
        let x = self.cursor.x as usize;
        let y = self.cursor.y as usize;
        let ghost rows = grown(old(self)@.lines, y as int);
        grow_rows(&mut self.text, y);
        pad_line(&mut self.text[y], x);
        self.text[y].insert(x, ch as u8);
        self.cursor_move_right(1);
        assert(self@.lines =~= rows.update(y as int, padded(rows[y as int], x as int).insert(
            x as int,
            ch as u8,
        )));
    }

    pub fn normal_mode(&mut self)
        ensures
            final(self)@ == (EditorView { mode: EditorMode::Normal, ..old(self)@ }),
            old(self).wf() ==> final(self).wf(),
    {
        self.mode = EditorMode::Normal;
    }

    pub fn insert_mode(&mut self)
        ensures
            final(self)@ == (EditorView { mode: EditorMode::Insert, ..old(self)@ }),
            old(self).wf() ==> final(self).wf(),
    {
        self.mode = EditorMode::Insert;
    }

    /// Steps back one column and removes the character there. Does nothing
    /// in column 0.
    pub fn backspace(&mut self)
        ensures
            final(self)@ == old(self)@.backspace(),
            old(self).wf() ==> final(self).wf(),
    {
        if self.cursor.x >= 1 {
            self.cursor_move_left(1);
            self.delete();
        }
    }

    /// Removes the character under the cursor, if there is one.
    pub fn delete(&mut self)
        ensures
            final(self)@ == old(self)@.delete(),
            old(self).wf() ==> final(self).wf(),
    {
        let x = self.cursor.x as usize;
        let y = self.cursor.y as usize;
        if self.text.len() <= y {
            return ;
        }
        if self.text[y].len() <= x {
            return ;
        }
        self.text[y].remove(x);
        assert(self@.lines =~= old(self)@.lines.update(
            y as int,
            old(self)@.lines[y as int].remove(x as int),
        ));
    }

    /// Moves the cursor to the start of the next row.
    pub fn newline(&mut self)
        ensures
            final(self)@ == old(self)@.newline(),
            old(self).wf() ==> final(self).wf(),
    {
        self.cursor = GridPosition::new(0, self.cursor.y.saturating_add(1));
    }

    /// Moves the cursor up by `amount` rows, stopping at row 0, and lets
    /// the viewport follow by one row where the cursor comes near its top.
    pub fn cursor_move_up(&mut self, amount: u32)
        ensures
            final(self)@ == old(self)@.move_up(amount),
            old(self).wf() ==> final(self).wf(),
    {
        self.cursor.y = self.cursor.y.saturating_sub(amount);
        if (self.cursor.y as u64) < self.viewport_position.y as u64 + SCROLL_MARGIN as u64
            && self.viewport_position.y > 0 {
            self.viewport_position.y -= 1;
        }
    }

    /// Moves the cursor down by `amount` rows, stopping at the last row
    /// that can be addressed, and lets the viewport follow by one row
    /// where the cursor comes near its bottom.
    pub fn cursor_move_down(&mut self, amount: u32)
        ensures
            final(self)@ == old(self)@.move_down(amount),
            old(self).wf() ==> final(self).wf(),
    {
        self.cursor.y = self.cursor.y.saturating_add(amount);
        if self.cursor.y as u128 + SCROLL_MARGIN as u128 > self.viewport_position.y as u128
            + self.viewport_size.1 as u128 {
            self.viewport_position.y = self.viewport_position.y.saturating_add(1);
        }
    }

    pub fn cursor_move_left(&mut self, amount: u32)
        ensures
            final(self)@ == old(self)@.move_left(amount),
            old(self).wf() ==> final(self).wf(),
    {
        self.cursor.x = self.cursor.x.saturating_sub(amount);
    }

    pub fn cursor_move_right(&mut self, amount: u32)
        ensures
            final(self)@ == old(self)@.move_right(amount),
            old(self).wf() ==> final(self).wf(),
    {
        self.cursor.x = self.cursor.x.saturating_add(amount);
    }

    /// Appends the lines of `text` to the buffer, one row for each, empty
    /// lines included.
    pub fn set_text(&mut self, text: String)
        ensures
            final(self)@ == old(self)@.append_text(encode_utf8(text@)),
            old(self).wf() ==> final(self).wf(),
    {
        let mut lines = lines_of(text.as_str().as_bytes());
        let ghost before = self@.lines;
        let ghost added = rows_view(lines@);
        self.text.append(&mut lines);
        assert(self@.lines =~= before + added);
    }

    /// The first buffer cell to the right of and below the viewport.
    pub fn viewport_end(&self) -> (end: GridPosition)
        ensures
            end == self@.viewport_end(),
    {
        let x = self.viewport_position.x as u128 + self.viewport_size.0 as u128;
        let y = self.viewport_position.y as u128 + self.viewport_size.1 as u128;
        GridPosition::new(
            if x > u32::MAX as u128 {
                u32::MAX
            } else {
                x as u32
            },
            if y > u32::MAX as u128 {
                u32::MAX
            } else {
                y as u32
            },
        )
    }

    /// Groups the visible cells by the letter they show. Bucket `g` of the
    /// result holds the top left pixel of every viewport cell that shows
    /// the letter at place `g` of the alphabet, and nothing else, in
    /// reading order.
    pub fn occupied_grid_cells(&self) -> (cells: Vec<Vec<(usize, usize)>>)
        requires
            self.wf(),
        ensures
            cells@.len() == LETTER_COUNT,
            self@.buckets_sound(cells@),
            self@.buckets_complete(cells@),
            buckets_ordered(cells@),
    {
        collect_cells(&self.text, self.viewport_position, self.viewport_end(), Ghost(self@))
    }

    /// Draws the character `ch` into the buffer cell `pos`. Pixels of the
    /// glyph whose packed colour is zero leave the screen as it is. A cell
    /// outside the viewport and a character without a glyph draw nothing.
    ///
    /// The framebuffer holds the screen's pixels row by row. It must reach
    /// as far as the viewport's cells do; a framebuffer of the screen's
    /// size does.
    pub fn draw_char(&self, ch: char, pos: GridPosition, screen: &mut [u32])
        requires
            self.wf(),
            old(screen)@.len() >= self@.painted_len(),
        ensures
            final(screen)@ == self@.with_char(ch, pos, old(screen)@),
    {
        paint_char(
            &self.font,
            self.viewport_position,
            self.viewport_end(),
            ch,
            pos,
            screen,
            self.screen_width,
            self.viewport_size.1 * CHAR_HEIGHT,
            Ghost(self@),
        );
    }

    /// Draws a frame: the letters of the visible text, grouped by letter,
    /// and then the cursor over them. The framebuffer holds the screen's
    /// pixels row by row; pixels that no glyph paints keep their value. It
    /// must reach as far as the viewport's cells do; a framebuffer of the
    /// screen's size does.
    pub fn draw(&self, screen: &mut [u32])
        requires
            self.wf(),
            old(screen)@.len() >= self@.painted_len(),
        ensures
            final(screen)@ == self@.rendered(old(screen)@),
    {
        let ghost before = screen@;
        let ghost w = self.screen_width as int;
        let ghost h = self@.painted_rows();
        let occupied = self.occupied_grid_cells();
        paint_cells(
            &self.font,
            &occupied,
            screen,
            self.screen_width,
            self.viewport_size.1 * CHAR_HEIGHT,
            Ghost(self@),
        );
        let ghost text_only = screen@;
        self.draw_char('_', self.cursor, screen);
        assert forall|i: int| 0 <= i < before.len() implies screen@[i] == self@.rendered(
            before,
        )[i] by {
            if i < w * h {
                lemma_pixel_of_index(w, h, i);
                assert(text_only[i] == pixel(text_only, w, i % w, i / w));
            } else {
                lemma_past_viewport(self@, '_', self.cursor, i, before[i]);
            }
        }
    }
}

/// Typing changes nothing in normal mode, whatever the state and the
/// character.
pub proof fn lemma_type_char_in_normal_mode(state: EditorView, ch: char)
    requires
        state.mode == EditorMode::Normal,
    ensures
        state.type_char(ch) == state,
{
}

/// Typing past the end of a line pads the line with spaces: where the
/// cursor stands in column `x` of a row that holds fewer than `x` bytes,
/// the row becomes what it was, then spaces up to column `x`, then the
/// typed character. A row that did not exist counts as empty. All other
/// rows stay, and the cursor moves one column on.
pub proof fn lemma_type_char_pads(state: EditorView, ch: char)
    requires
        state.mode == EditorMode::Insert,
        is_single_byte(ch),
        state.cell(state.cursor.x as int, state.cursor.y as int) is None,
    ensures
        ({
            let x = state.cursor.x as int;
            let y = state.cursor.y as int;
            let after = state.type_char(ch);
            let line = if y < state.lines.len() {
                state.lines[y]
            } else {
                Seq::<u8>::empty()
            };
            &&& after.lines.len() == if y < state.lines.len() {
                state.lines.len() as int
            } else {
                y + 1
            }
            &&& after.lines[y].len() == x + 1
            &&& after.lines[y].subrange(0, line.len() as int) == line
            &&& forall|i: int| line.len() <= i < x ==> after.lines[y][i] == SPACE
            &&& after.lines[y][x] == ch as u8
            &&& forall|r: int|
                0 <= r < state.lines.len() && r != y ==> after.lines[r] == state.lines[r]
            &&& forall|r: int|
                state.lines.len() <= r < y ==> after.lines[r] == Seq::<u8>::empty()
            &&& after.cursor.y == state.cursor.y
            &&& after.cursor.x == if x < u32::MAX {
                x + 1
            } else {
                x
            }
        }),
{
}

/// Typing a single-byte character in insert mode inserts it at the
/// cursor. The buffer grows by empty rows until the cursor's row exists,
/// and all rows but the cursor's stay. The cursor's row, padded with
/// spaces where it was shorter than the cursor's column, keeps what stood
/// before the column, then holds the character, then what stood from the
/// column on. The cursor moves one column on, unless it stands in the last
/// column that can be addressed. Viewport, mode, screen and font stay.
pub proof fn lemma_type_char_inserts(state: EditorView, ch: char)
    requires
        state.mode == EditorMode::Insert,
        is_single_byte(ch),
    ensures
        ({
            let x = state.cursor.x as int;
            let y = state.cursor.y as int;
            let count = state.lines.len() as int;
            let after = state.type_char(ch);
            let line = if y < count {
                state.lines[y]
            } else {
                Seq::<u8>::empty()
            };
            let wide = padded(line, x);
            &&& after.lines.len() == if y < count {
                count
            } else {
                y + 1
            }
            &&& forall|r: int| 0 <= r < count && r != y ==> after.lines[r] == state.lines[r]
            &&& forall|r: int| count <= r < y ==> after.lines[r] == Seq::<u8>::empty()
            &&& wide.len() == if line.len() < x {
                x
            } else {
                line.len() as int
            }
            &&& after.lines[y] == wide.subrange(0, x) + seq![ch as u8] + wide.subrange(
                x,
                wide.len() as int,
            )
            &&& after.lines[y].len() == wide.len() + 1
            &&& after.cursor.y == state.cursor.y
            &&& after.cursor.x == if x < u32::MAX {
                x + 1
            } else {
                x
            }
            &&& after == (EditorView { lines: after.lines, cursor: after.cursor, ..state })
        }),
{
    let x = state.cursor.x as int;
    let y = state.cursor.y as int;
    let line = if y < state.lines.len() {
        state.lines[y]
    } else {
        Seq::<u8>::empty()
    };
    let wide = padded(line, x);
    assert(wide.insert(x, ch as u8) =~= wide.subrange(0, x) + seq![ch as u8] + wide.subrange(
        x,
        wide.len() as int,
    ));
}

/// A backspace undoes the typing before it: where the cursor stands in or
/// at the end of an existing row, and not in the last column that can be
/// addressed, typing a single-byte character in insert mode and then
/// pressing backspace gives the state from before.
pub proof fn lemma_backspace_undoes_type_char(state: EditorView, ch: char)
    requires
        state.mode == EditorMode::Insert,
        is_single_byte(ch),
        state.cursor.y < state.lines.len(),
        state.cursor.x <= state.lines[state.cursor.y as int].len(),
        state.cursor.x < u32::MAX,
    ensures
        state.type_char(ch).backspace() == state,
{
    let x = state.cursor.x as int;
    let y = state.cursor.y as int;
    let line = state.lines[y];
    assert(line.insert(x, ch as u8).remove(x) =~= line);
    assert(state.type_char(ch).backspace().lines =~= state.lines);
}

/// Backspace in column 0 changes nothing. In a later column it moves the
/// cursor one column to the left, and removes exactly the character that
/// then stands under the cursor: the row is one byte shorter and all
/// other rows stay. Where no character stands there, the text stays.
pub proof fn lemma_backspace(state: EditorView)
    ensures
        state.cursor.x == 0 ==> state.backspace() == state,
        state.cursor.x > 0 ==> ({
            let x = state.cursor.x - 1;
            let y = state.cursor.y as int;
            let after = state.backspace();
            &&& after.cursor == (GridPosition { x: x as u32, y: state.cursor.y })
            &&& after.lines.len() == state.lines.len()
            &&& forall|r: int|
                0 <= r < state.lines.len() && r != y ==> after.lines[r] == state.lines[r]
            &&& state.cell(x, y) is Some ==> {
                &&& after.lines[y] == state.lines[y].remove(x)
                &&& after.lines[y].len() == state.lines[y].len() - 1
            }
            &&& state.cell(x, y) is None ==> after.lines == state.lines
            &&& after == (EditorView { lines: after.lines, cursor: after.cursor, ..state })
        }),
{
}

/// The viewport follows a cursor that moves down: where the row that the
/// cursor reaches lies past the viewport's top plus its height less three,
/// the top moves down by exactly one row, however far the cursor went;
/// else the viewport stays. Only a viewport whose top is the last row
/// that can be addressed cannot move, and a viewport of three rows or more
/// never gets there.
pub proof fn lemma_scroll_follows_down(state: EditorView, amount: u32)
    ensures
        ({
            let row = state.cursor.y.saturating_add(amount);
            let after = state.move_down(amount);
            &&& after.cursor == (GridPosition { x: state.cursor.x, y: row })
            &&& after.origin.x == state.origin.x
            &&& row > state.origin.y + state.rows - SCROLL_MARGIN && state.origin.y < u32::MAX
                ==> after.origin.y == state.origin.y + 1
            &&& row <= state.origin.y + state.rows - SCROLL_MARGIN ==> after.origin.y
                == state.origin.y
            &&& row > state.origin.y + state.rows - SCROLL_MARGIN && state.rows >= SCROLL_MARGIN
                ==> after.origin.y == state.origin.y + 1
        }),
{
}

/// The viewport follows a cursor that moves up: where the row that the
/// cursor reaches lies less than three rows below the viewport's top, and
/// the top is not row 0, the top moves up by exactly one row; else the
/// viewport stays.
pub proof fn lemma_scroll_follows_up(state: EditorView, amount: u32)
    ensures
        ({
            let row = state.cursor.y.saturating_sub(amount);
            let after = state.move_up(amount);
            &&& after.cursor == (GridPosition { x: state.cursor.x, y: row })
            &&& after.origin.x == state.origin.x
            &&& row < state.origin.y + SCROLL_MARGIN && state.origin.y > 0 ==> after.origin.y
                == state.origin.y - 1
            &&& row >= state.origin.y + SCROLL_MARGIN || state.origin.y == 0 ==> after.origin.y
                == state.origin.y
        }),
{
}

} // verus!
