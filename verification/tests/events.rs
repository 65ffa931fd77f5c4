use gridedit::common::{GridPosition, Size};
use gridedit::editor::{Editor, EditorMode};
use gridedit::font::Font;
use gridedit::input::Key;
use gridedit::sprite::{Sprite, RGB};

fn font() -> Font {
    let mut all = Vec::new();
    for i in 0..94u32 {
        let mut text = String::from("P3 9 14 255\n");
        for p in 0..126u32 {
            text.push_str(&format!("{} {} {}\n", i + 33, p, 1));
        }
        all.push(Some(text));
    }
    Font::new(&all).ok().unwrap()
}

fn editor() -> Editor {
    let mut editor = Editor::new(640, 480, font());
    editor.set_text(String::from("first\nsecond\nthird"));
    editor
}

fn row(editor: &Editor, y: usize) -> String {
    String::from_utf8(editor.line(y).unwrap().clone()).unwrap()
}

#[test]
fn arrow_keys_move_the_cursor_in_both_modes() {
    let mut editor = editor();
    for mode in [EditorMode::Normal, EditorMode::Insert] {
        editor.mode = mode;
        assert!(!editor.press(Key::Right, false));
        assert!(!editor.press(Key::Right, false));
        assert!(!editor.press(Key::Down, false));
        assert_eq!(editor.cursor(), GridPosition::new(2, 1));
        assert!(!editor.press(Key::Left, false));
        assert!(!editor.press(Key::Up, false));
        assert_eq!(editor.cursor(), GridPosition::new(1, 0));
        assert!(!editor.press(Key::Left, false));
        assert_eq!(editor.cursor(), GridPosition::new(0, 0));
        assert_eq!(editor.current_mode(), mode);
    }
}

#[test]
fn letter_keys_move_the_cursor_in_normal_mode_only() {
    let mut editor = editor();
    assert!(!editor.press(Key::U, false));
    assert!(!editor.press(Key::U, false));
    assert!(!editor.press(Key::E, false));
    assert_eq!(editor.cursor(), GridPosition::new(2, 1));
    assert!(!editor.press(Key::O, false));
    assert!(!editor.press(Key::Period, false));
    assert_eq!(editor.cursor(), GridPosition::new(1, 0));
    editor.insert_mode();
    for key in [Key::U, Key::E, Key::O, Key::Period] {
        assert!(!editor.press(key, false));
        assert_eq!(editor.cursor(), GridPosition::new(1, 0));
    }
}

#[test]
fn i_and_escape_switch_the_mode() {
    let mut editor = editor();
    assert!(!editor.press(Key::Escape, false));
    assert_eq!(editor.mode, EditorMode::Normal);
    assert!(!editor.press(Key::I, false));
    assert_eq!(editor.mode, EditorMode::Insert);
    assert!(!editor.press(Key::I, false));
    assert_eq!(editor.mode, EditorMode::Insert);
    assert!(!editor.press(Key::Escape, false));
    assert_eq!(editor.mode, EditorMode::Normal);
}

#[test]
fn quitting_needs_control_c_or_an_apostrophe_in_normal_mode() {
    let mut editor = editor();
    assert!(!editor.press(Key::C, false));
    assert!(editor.press(Key::C, true));
    assert!(editor.press(Key::Apostrophe, false));
    assert!(editor.press(Key::Apostrophe, true));
    editor.insert_mode();
    assert!(!editor.press(Key::Apostrophe, false));
    assert!(!editor.press(Key::C, false));
    assert!(editor.press(Key::C, true));
    assert!(!editor.press(Key::Other, true));
    assert_eq!(editor.cursor(), GridPosition::new(0, 0));
    assert_eq!(editor.line_count(), 3);
}

#[test]
fn editing_keys_work_in_both_modes() {
    let mut editor = editor();
    editor.cursor_move_right(2);
    assert!(!editor.press(Key::Delete, false));
    assert_eq!(row(&editor, 0), "fist");
    assert!(!editor.press(Key::Backspace, false));
    assert_eq!(row(&editor, 0), "fst");
    assert_eq!(editor.cursor(), GridPosition::new(1, 0));
    assert!(!editor.press(Key::Enter, false));
    assert_eq!(editor.cursor(), GridPosition::new(0, 1));
    assert_eq!(editor.line_count(), 3);
}

#[test]
fn input_types_only_what_can_be_typed() {
    let mut editor = Editor::new(640, 480, font());
    editor.insert_mode();
    assert!(editor.input('h' as u32));
    assert!(editor.input('i' as u32));
    assert!(editor.input(' ' as u32));
    assert!(editor.input('~' as u32));
    assert!(!editor.input(0x1f));
    assert!(!editor.input(0x7f));
    assert!(!editor.input(0xe9));
    assert!(!editor.input(0xd800));
    assert!(!editor.input(0x11_0000));
    assert!(!editor.input(u32::MAX));
    assert!(!editor.input(0x100 + 'a' as u32));
    assert_eq!(row(&editor, 0), "hi ~");
    editor.normal_mode();
    assert!(editor.input('x' as u32));
    assert_eq!(row(&editor, 0), "hi ~");
}

#[test]
fn frame_handles_keys_before_characters() {
    // the key that enters insert mode comes with its own character
    let mut editor = Editor::new(640, 480, font());
    let quit = editor.frame(&vec![Key::I], false, &vec!['i' as u32, 'x' as u32]);
    assert!(!quit);
    assert_eq!(editor.mode, EditorMode::Insert);
    assert_eq!(row(&editor, 0), "ix");
    assert_eq!(editor.cursor(), GridPosition::new(2, 0));
}

#[test]
fn frame_in_normal_mode_types_nothing() {
    let mut editor = editor();
    let quit = editor.frame(&vec![Key::U, Key::E], false, &vec!['u' as u32, 'e' as u32]);
    assert!(!quit);
    assert_eq!(editor.cursor(), GridPosition::new(1, 1));
    assert_eq!(row(&editor, 0), "first");
    assert_eq!(row(&editor, 1), "second");
}

#[test]
fn frame_stops_at_the_key_that_quits() {
    let mut editor = editor();
    let keys = vec![Key::Right, Key::Apostrophe, Key::Right, Key::I];
    let quit = editor.frame(&keys, false, &vec!['a' as u32]);
    assert!(quit);
    assert_eq!(editor.cursor(), GridPosition::new(1, 0));
    assert_eq!(editor.mode, EditorMode::Normal);
    assert_eq!(row(&editor, 0), "first");
}

#[test]
fn frame_without_events_changes_nothing() {
    let mut editor = editor();
    editor.cursor_move_right(3);
    assert!(!editor.frame(&Vec::new(), true, &Vec::new()));
    assert_eq!(editor.cursor(), GridPosition::new(3, 0));
    assert_eq!(editor.line_count(), 3);
}

fn sprite(x: u32, y: u32) -> Sprite {
    let mut pixels = Vec::new();
    for i in 0..6u8 {
        pixels.push(RGB::new(i, 0, 0));
    }
    Sprite::new(GridPosition::new(x, y), Size::new(3, 2), pixels)
}

#[test]
fn rgb_packs_to_0x00rrggbb() {
    assert_eq!(u32::from(RGB::new(0xab, 0xcd, 0xef)), 0x00ab_cdef);
    assert_eq!(u32::from(RGB::new(0, 0, 0)), 0);
    let packed: u32 = RGB::new(1, 2, 3).into();
    assert_eq!(packed, 0x0001_0203);
}

#[test]
fn sprite_replaces_every_pixel_it_covers() {
    let mut screen = vec![9u32; 5 * 4];
    sprite(1, 2).draw(&mut screen, 5, 4);
    let expected = vec![
        9, 9, 9, 9, 9,
        9, 9, 9, 9, 9,
        9, 0x00_0000, 0x01_0000, 0x02_0000, 9,
        9, 0x03_0000, 0x04_0000, 0x05_0000, 9,
    ];
    assert_eq!(screen, expected);
}

#[test]
fn sprite_that_reaches_past_the_screen_draws_nothing() {
    let mut screen = vec![9u32; 5 * 4];
    sprite(3, 0).draw(&mut screen, 5, 4);
    sprite(0, 3).draw(&mut screen, 5, 4);
    sprite(u32::MAX, 0).draw(&mut screen, 5, 4);
    sprite(0, u32::MAX).draw(&mut screen, 5, 4);
    assert_eq!(screen, vec![9u32; 20]);
    sprite(2, 2).draw(&mut screen, 5, 4);
    assert_eq!(screen[2 * 5 + 2], 0);
    assert_eq!(screen[3 * 5 + 4], 0x05_0000);
}

#[test]
fn sprite_needs_no_more_of_the_screen_than_it_covers() {
    // the sprite ends in column 4 of row 3: 3 * 5 + 4 pixels are enough
    let mut screen = vec![9u32; 19];
    sprite(1, 2).draw(&mut screen, 5, 4);
    assert_eq!(&screen[10..19], &[9, 0, 0x01_0000, 0x02_0000, 9, 9, 0x03_0000, 0x04_0000, 0x05_0000]);
    assert_eq!(&screen[..10], &[9u32; 10]);
    // a longer framebuffer keeps what lies past the screen
    let mut long = vec![9u32; 40];
    sprite(1, 2).draw(&mut long, 5, 4);
    assert_eq!(&long[..19], &screen[..]);
    assert_eq!(&long[19..], &[9u32; 21]);
}

#[test]
fn sprite_may_hold_more_colours_than_it_shows() {
    let mut pixels = Vec::new();
    for i in 0..10u8 {
        pixels.push(RGB::new(0, 0, i + 1));
    }
    let mut screen = vec![0u32; 6];
    Sprite::new(GridPosition::new(1, 0), Size::new(2, 2), pixels).draw(&mut screen, 3, 2);
    assert_eq!(screen, vec![0, 1, 2, 0, 3, 4]);
}

#[test]
fn sprite_that_does_not_fit_asks_nothing_of_its_pixels() {
    let mut screen = vec![9u32; 2];
    Sprite::new(GridPosition::new(0, 0), Size::new(4, 4), Vec::new()).draw(&mut screen, 3, 3);
    assert_eq!(screen, vec![9u32; 2]);
}

#[test]
fn empty_sprite_draws_nothing() {
    let mut screen = vec![9u32; 6];
    Sprite::new(GridPosition::new(1, 1), Size::new(0, 0), Vec::new()).draw(&mut screen, 3, 2);
    Sprite::new(GridPosition::new(0, 0), Size::new(3, 0), Vec::new()).draw(&mut screen, 3, 2);
    assert_eq!(screen, vec![9u32; 6]);
}
