use gridedit::common::Rgb;
use gridedit::glyph::LetterSprite;
use gridedit::lines::lines_of;
use gridedit::render::blit;
use gridedit::scan::{chars_of, find_newline, is_numeral, is_separator, parse_bounded, Spacing};

fn every_char() -> impl Iterator<Item = char> {
    (0..=0x10_ffffu32).filter_map(char::from_u32)
}

#[test]
fn ascii_spacing_is_ascii_whitespace() {
    for c in every_char() {
        assert_eq!(is_separator(Spacing::Ascii, c), c.is_ascii_whitespace(), "{:?}", c);
    }
    let spaces: Vec<char> = every_char().filter(|c| is_separator(Spacing::Ascii, *c)).collect();
    assert_eq!(spaces, vec!['\t', '\n', '\x0c', '\r', ' ']);
}

#[test]
fn unicode_spacing_is_unicode_white_space() {
    for c in every_char() {
        assert_eq!(is_separator(Spacing::Unicode, c), c.is_whitespace(), "{:?}", c);
    }
    assert_eq!(every_char().filter(|c| is_separator(Spacing::Unicode, *c)).count(), 25);
    assert!(is_separator(Spacing::Unicode, '\x0b'));
    assert!(is_separator(Spacing::Unicode, '\u{a0}'));
    assert!(is_separator(Spacing::Unicode, '\u{3000}'));
    assert!(!is_separator(Spacing::Unicode, '\u{200b}'));
}

#[test]
fn chars_of_gives_every_character() {
    assert_eq!(chars_of(""), Vec::<char>::new());
    assert_eq!(chars_of("aé€😀\n"), vec!['a', 'é', '€', '😀', '\n']);
}

#[test]
fn find_newline_gives_the_first_one() {
    assert_eq!(find_newline(&chars_of("")), None);
    assert_eq!(find_newline(&chars_of("abc\r")), None);
    assert_eq!(find_newline(&chars_of("\n")), Some(0));
    assert_eq!(find_newline(&chars_of("ab\ncd\n")), Some(2));
    assert_eq!(find_newline(&chars_of("é\r\n\n")), Some(2));
}

#[test]
fn numerals_are_digits_after_an_optional_plus() {
    for text in ["0", "7", "+7", "007", "+000", "18446744073709551616", "99999999999999999999999"] {
        let chars = chars_of(text);
        assert!(is_numeral(&chars, 0, chars.len()), "{}", text);
    }
    for text in ["", "+", "-1", "++1", "1+", "1 ", " 1", "0x10", "1_0", "1.5", "٣", "1e3"] {
        let chars = chars_of(text);
        assert!(!is_numeral(&chars, 0, chars.len()), "{}", text);
    }
}

#[test]
fn parse_bounded_gives_the_value_up_to_the_bound() {
    let parse = |text: &str, max: u32| {
        let chars = chars_of(text);
        parse_bounded(&chars, 0, chars.len(), max)
    };
    assert_eq!(parse("0", 255), Some(0));
    assert_eq!(parse("255", 255), Some(255));
    assert_eq!(parse("256", 255), None);
    assert_eq!(parse("+12", 255), Some(12));
    assert_eq!(parse("00000000000000000000000000012", 255), Some(12));
    assert_eq!(parse("4294967295", u32::MAX), Some(u32::MAX));
    assert_eq!(parse("4294967296", u32::MAX), None);
    assert_eq!(parse("99999999999999999999999999999", u32::MAX), None);
    assert_eq!(parse("0", 0), Some(0));
    assert_eq!(parse("1", 0), None);
    assert_eq!(parse("", 255), None);
    assert_eq!(parse("+", 255), None);
    assert_eq!(parse("-0", 255), None);
    assert_eq!(parse("12a", 255), None);
    assert_eq!(parse("999a", 255), None);
    assert_eq!(parse("１２", 255), None);
}

#[test]
fn numerals_agree_with_the_standard_library() {
    for text in ["0", "+0", "255", "256", "+255", "0255", "", "+", "-", "-0", "1 ", "٣", "1_0"] {
        let chars = chars_of(text);
        let expected = text.parse::<u8>().ok().map(u32::from);
        assert_eq!(parse_bounded(&chars, 0, chars.len(), 255), expected, "{:?}", text);
        assert_eq!(is_numeral(&chars, 0, chars.len()), text.parse::<u128>().is_ok(), "{:?}", text);
    }
}

#[test]
fn parse_bounded_reads_the_given_range_only() {
    let chars = chars_of("ab 123 cd");
    let text = chars.as_slice();
    assert_eq!(parse_bounded(text, 3, 6, 255), Some(123));
    assert_eq!(parse_bounded(text, 4, 6, 255), Some(23));
    assert_eq!(parse_bounded(text, 3, 5, 255), Some(12));
    assert_eq!(parse_bounded(text, 2, 6, 255), None);
    assert_eq!(parse_bounded(text, 3, 7, 255), None);
    assert_eq!(parse_bounded(text, 5, 5, 255), None);
    assert!(is_numeral(text, 3, 6));
    assert!(!is_numeral(text, 3, 7));
    assert!(!is_numeral(text, 9, 9));
}

#[test]
fn lines_of_splits_like_the_standard_library() {
    for text in ["", "\n", "a", "a\n", "a\r\n", "a\r", "a\n\nb", "\r\n\r\nx\r\r\n", "x\ny\r"] {
        let expected: Vec<Vec<u8>> = text.lines().map(|line| line.as_bytes().to_vec()).collect();
        assert_eq!(lines_of(text.as_bytes()), expected, "{:?}", text);
    }
}

#[test]
fn blit_skips_black_pixels_and_stays_inside_its_cell() {
    let mut text = String::from("P3 9 14 255\n");
    for i in 0..126 {
        text.push_str(if i % 2 == 0 { "0 0 0 " } else { "1 2 3 " });
    }
    let sprite = LetterSprite::new(&text).unwrap();
    assert_eq!(sprite.pixel(1, 0), Rgb::new(1, 2, 3));
    let (width, height) = (12usize, 16usize);
    let mut screen = vec![5u32; width * height];
    blit(&sprite, &mut screen, width, height, 3, 2);
    for y in 0..height {
        for x in 0..width {
            let inside = (3..12).contains(&x) && (2..16).contains(&y);
            let odd = inside && ((y - 2) * 9 + (x - 3)) % 2 == 1;
            assert_eq!(screen[y * width + x], if odd { 0x0001_0203 } else { 5 });
        }
    }
}
