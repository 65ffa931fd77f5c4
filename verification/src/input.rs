//! What the editor does with the events of its host: key presses and
//! typed characters.

use vstd::prelude::*;
use crate::editor::{is_typable, Editor, EditorMode, EditorView};

verus! {

/// A key, as far as the editor gives it a meaning.
#[derive(Debug, Copy, Clone, PartialEq, Eq, Structural)]
pub enum Key {
    Left,
    Right,
    Down,
    Up,
    I,
    C,
    Apostrophe,
    Period,
    Escape,
    E,
    O,
    U,
    Enter,
    Delete,
    Backspace,
    /// Any other key.
    Other,
}

impl EditorView {
    /// The state after a key was pressed, and whether the key asks to
    /// leave the editor. `ctrl` says whether a control key is held down.
    ///
    /// The arrow keys move the cursor, `I` enters insert mode and escape
    /// leaves it. In normal mode `.`, `E`, `O` and `U` move the cursor up,
    /// down, left and right, and `'` leaves the editor. `C` leaves it when
    /// control is held.
    pub open spec fn press(self, key: Key, ctrl: bool) -> (EditorView, bool) {
        let normal = self.mode == EditorMode::Normal;
        match key {
            Key::Left => (self.move_left(1), false),
            Key::Right => (self.move_right(1), false),
            Key::Down => (self.move_down(1), false),
            Key::Up => (self.move_up(1), false),
            Key::I => (EditorView { mode: EditorMode::Insert, ..self }, false),
            Key::C => (self, ctrl),
            Key::Apostrophe => (self, normal),
            Key::Period => (
                if normal {
                    self.move_up(1)
                } else {
                    self
                },
                false,
            ),
            Key::Escape => (EditorView { mode: EditorMode::Normal, ..self }, false),
            Key::E => (
                if normal {
                    self.move_down(1)
                } else {
                    self
                },
                false,
            ),
            Key::O => (
                if normal {
                    self.move_left(1)
                } else {
                    self
                },
                false,
            ),
            Key::U => (
                if normal {
                    self.move_right(1)
                } else {
                    self
                },
                false,
            ),
            Key::Enter => (self.newline(), false),
            Key::Delete => (self.delete(), false),
            Key::Backspace => (self.backspace(), false),
            Key::Other => (self, false),
        }
    }

    /// The state after the keys were pressed in order, up to and with the
    /// first that asks to leave the editor, and whether one did.
    pub open spec fn press_all(self, keys: Seq<Key>, ctrl: bool) -> (EditorView, bool)
        decreases keys.len(),
    {
        if keys.len() == 0 {
            (self, false)
        } else {
            let (state, quit) = self.press_all(keys.drop_last(), ctrl);
            if quit {
                (state, true)
            } else {
                state.press(keys.last(), ctrl)
            }
        }
    }

    /// The state after the host reported the character with the code
    /// point `code`: it is typed if it can be, and ignored if not.
    pub open spec fn input(self, code: u32) -> EditorView {
        if 0x20 <= code <= 0x7e {
            self.type_char(code as char)
        } else {
            self
        }
    }

    /// The state after the characters were reported in order.
    pub open spec fn input_all(self, codes: Seq<u32>) -> EditorView
        decreases codes.len(),
    {
        if codes.len() == 0 {
            self
        } else {
            self.input_all(codes.drop_last()).input(codes.last())
        }
    }

    /// The state after the events of one frame: the keys first, then the
    /// characters, unless a key asked to leave the editor.
    pub open spec fn frame(self, keys: Seq<Key>, ctrl: bool, codes: Seq<u32>) -> (
        EditorView,
        bool,
    ) {
        let (state, quit) = self.press_all(keys, ctrl);
        if quit {
            (state, true)
        } else {
            (state.input_all(codes), false)
        }
    }
}

impl Editor {
    /// Handles a key press. Returns whether the key asks to leave the
    /// editor.
    pub fn press(&mut self, key: Key, ctrl: bool) -> (quit: bool)
        ensures
            (final(self)@, quit) == old(self)@.press(key, ctrl),
            old(self).wf() ==> final(self).wf(),
    {
        let normal = self.current_mode() == EditorMode::Normal;
        match key {
            Key::Left => {
                self.cursor_move_left(1);
                false
            },
            Key::Right => {
                self.cursor_move_right(1);
                false
            },
            Key::Down => {
                self.cursor_move_down(1);
                false
            },
            Key::Up => {
                self.cursor_move_up(1);
                false
            },
            Key::I => {
                self.insert_mode();
                false
            },
            Key::C => ctrl,
            Key::Apostrophe => normal,
            Key::Period => {
                if normal {
                    self.cursor_move_up(1);
                }
                false
            },
            Key::Escape => {
                self.normal_mode();
                false
            },
            Key::E => {
                if normal {
                    self.cursor_move_down(1);
                }
                false
            },
            Key::O => {
                if normal {
                    self.cursor_move_left(1);
                }
                false
            },
            Key::U => {
                if normal {
                    self.cursor_move_right(1);
                }
                false
            },
            Key::Enter => {
                self.newline();
                false
            },
            Key::Delete => {
                self.delete();
                false
            },
            Key::Backspace => {
                self.backspace();
                false
            },
            Key::Other => false,
        }
    }

    /// Handles a character that the host reports by its code point. A
    /// character that can be typed is typed; every other is ignored.
    /// Returns whether it can be typed.
    pub fn input(&mut self, code: u32) -> (typable: bool)
        ensures
            final(self)@ == old(self)@.input(code),
            typable == (0x20 <= code <= 0x7e),
            old(self).wf() ==> final(self).wf(),
    {
        if 0x20 <= code && code <= 0x7e {
            let ch = (code as u8) as char;
            self.type_char(ch);
            true
        } else {
            false
        }
    }

    /// Handles the events of one frame: the keys that were pressed, in
    /// order, and then the characters that were typed. Stops at the first
    /// key that asks to leave the editor, and returns whether one did.
    pub fn frame(&mut self, keys: &Vec<Key>, ctrl: bool, codes: &Vec<u32>) -> (quit: bool)
        ensures
            (final(self)@, quit) == old(self)@.frame(keys@, ctrl, codes@),
            old(self).wf() ==> final(self).wf(),
    {
        let ghost start = self@;
        let mut i: usize = 0;
        while i < keys.len()
            invariant
                i <= keys@.len(),
                start == old(self)@,
                (self@, false) == start.press_all(keys@.take(i as int), ctrl),
                old(self).wf() ==> self.wf(),
            decreases keys@.len() - i,
        {
            assert(keys@.take(i + 1).drop_last() =~= keys@.take(i as int));
            if self.press(keys[i], ctrl) {
                proof {
                    lemma_press_all_stops(start, keys@, i + 1, ctrl);
                }
                return true;
            }
            i += 1;
        }
        assert(keys@.take(i as int) =~= keys@);
        let ghost pressed = self@;
        let mut j: usize = 0;
        while j < codes.len()
            invariant
                j <= codes@.len(),
                self@ == pressed.input_all(codes@.take(j as int)),
                old(self).wf() ==> self.wf(),
            decreases codes@.len() - j,
        {
            assert(codes@.take(j + 1).drop_last() =~= codes@.take(j as int));
            self.input(codes[j]);
            j += 1;
        }
        assert(codes@.take(j as int) =~= codes@);
        false
    }
}

/// Once a key has asked to leave the editor, the keys after it are not
/// handled.
pub proof fn lemma_press_all_stops(state: EditorView, keys: Seq<Key>, n: int, ctrl: bool)
    requires
        0 <= n <= keys.len(),
        state.press_all(keys.take(n), ctrl).1,
    ensures
        state.press_all(keys, ctrl) == state.press_all(keys.take(n), ctrl),
    decreases keys.len() - n,
{
    if n < keys.len() {
        assert(keys.take(n + 1).drop_last() =~= keys.take(n));
        lemma_press_all_stops(state, keys, n + 1, ctrl);
    } else {
        assert(keys.take(n) =~= keys);
    }
}

/// The two modes reach each other from every state: `I` leads to insert
/// mode and escape to normal mode, and neither key changes anything else.
pub proof fn lemma_modes_reach_each_other(state: EditorView, ctrl: bool)
    ensures
        state.press(Key::I, ctrl) == (EditorView { mode: EditorMode::Insert, ..state }, false),
        state.press(Key::Escape, ctrl) == (EditorView { mode: EditorMode::Normal, ..state }, false),
{
}

} // verus!
