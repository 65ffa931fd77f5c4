use gridedit::common::Rgb;
use gridedit::font::{Font, FontError};
use gridedit::glyph::{FormatError, LetterSprite};

/// The channel values of a test glyph: pixel (x, y) is (x + 1, y + 1, seed).
fn body(seed: u8) -> String {
    let mut text = String::new();
    for y in 0..14u8 {
        for x in 0..9u8 {
            text.push_str(&format!("{} {} {}\n", x + 1, y + 1, seed));
        }
    }
    text
}

fn resource(seed: u8) -> String {
    format!("P3 9 14 255\n{}", body(seed))
}

fn resources() -> Vec<Option<String>> {
    let mut all = Vec::new();
    for i in 0..94u8 {
        all.push(Some(resource(i + 33)));
    }
    all
}

#[test]
fn loads_every_pixel_of_a_well_formed_glyph() {
    let sprite = LetterSprite::new(&resource(7)).unwrap();
    for y in 0..14usize {
        for x in 0..9usize {
            let expected = Rgb::new(x as u8 + 1, y as u8 + 1, 7);
            assert_eq!(sprite.pixel(x, y), expected);
            assert_eq!(sprite.pixels[y * 9 + x], expected);
        }
    }
}

#[test]
fn accepts_any_ascii_whitespace_between_tokens() {
    let mut text = String::from("  P3\t9  14 255 \r\n");
    for i in 0..378 {
        text.push_str(if i % 3 == 0 { "\n\n" } else { "\t \x0c" });
        text.push_str("200");
    }
    let sprite = LetterSprite::new(&text).unwrap();
    assert_eq!(sprite.pixel(8, 13), Rgb::new(200, 200, 200));
}

#[test]
fn header_tokens_are_separated_by_white_space_of_any_kind() {
    let text = format!("\u{2003}P3\u{a0}9\x0b14\u{3000}255\u{85}\r\n{}", body(4));
    let sprite = LetterSprite::new(&text).unwrap();
    assert_eq!(sprite.pixel(1, 2), Rgb::new(2, 3, 4));
}

#[test]
fn pixel_data_is_separated_by_ascii_whitespace_only() {
    for separator in ["\x0b", "\u{a0}", "\u{85}", "\u{2003}", "\u{3000}"] {
        let text = format!("P3 9 14 255\n{}", body(4)).replacen("1 1 4", &format!("1{}1 4", separator), 1);
        assert_eq!(LetterSprite::new(&text).err(), Some(FormatError::PixelDataError));
    }
}

#[test]
fn accepts_plus_sign_and_leading_zeros() {
    let mut text = String::from("P3 +9 014 255\n");
    for _ in 0..126 {
        text.push_str("+5 007 0255 ");
    }
    let sprite = LetterSprite::new(&text).unwrap();
    assert_eq!(sprite.pixel(0, 0), Rgb::new(5, 7, 255));
    assert_eq!(sprite.pixel(4, 9), Rgb::new(5, 7, 255));
}

#[test]
fn missing_newline_is_missing_header_separator() {
    assert_eq!(LetterSprite::new("").err(), Some(FormatError::MissingHeaderSeparator));
    assert_eq!(
        LetterSprite::new("P3 9 14 255").err(),
        Some(FormatError::MissingHeaderSeparator)
    );
    assert_eq!(
        LetterSprite::new("P3 9 14 255 1 2 3").err(),
        Some(FormatError::MissingHeaderSeparator)
    );
}

#[test]
fn wrong_magic_is_bad_magic() {
    let text = format!("P6 9 14 255\n{}", body(1));
    assert_eq!(LetterSprite::new(&text).err(), Some(FormatError::BadMagic));
    let text = format!("p3 9 14 255\n{}", body(1));
    assert_eq!(LetterSprite::new(&text).err(), Some(FormatError::BadMagic));
    let text = format!("P33 9 14 255\n{}", body(1));
    assert_eq!(LetterSprite::new(&text).err(), Some(FormatError::BadMagic));
    assert_eq!(LetterSprite::new("\n").err(), Some(FormatError::BadMagic));
    assert_eq!(LetterSprite::new("   \n1 2 3").err(), Some(FormatError::BadMagic));
}

#[test]
fn wrong_magic_wins_over_every_other_fault() {
    assert_eq!(LetterSprite::new("P2 8 x 254 extra\n").err(), Some(FormatError::BadMagic));
}

#[test]
fn wrong_depth_is_unsupported_depth() {
    let text = format!("P3 9 14 254\n{}", body(1));
    assert_eq!(LetterSprite::new(&text).err(), Some(FormatError::UnsupportedDepth));
    let text = format!("P3 9 14 65535\n{}", body(1));
    assert_eq!(LetterSprite::new(&text).err(), Some(FormatError::UnsupportedDepth));
    let text = format!("P3 9 14\n{}", body(1));
    assert_eq!(LetterSprite::new(&text).err(), Some(FormatError::UnsupportedDepth));
    let text = format!("P3 9 14 0255\n{}", body(1));
    assert_eq!(LetterSprite::new(&text).err(), Some(FormatError::UnsupportedDepth));
}

#[test]
fn wrong_size_is_size_mismatch() {
    let text = format!("P3 8 14 255\n{}", body(1));
    assert_eq!(LetterSprite::new(&text).err(), Some(FormatError::SizeMismatch));
    let text = format!("P3 9 15 255\n{}", body(1));
    assert_eq!(LetterSprite::new(&text).err(), Some(FormatError::SizeMismatch));
    let text = format!("P3 14 9 255\n{}", body(1));
    assert_eq!(LetterSprite::new(&text).err(), Some(FormatError::SizeMismatch));
    let text = format!("P3 99999999999999999999999999 14 255\n{}", body(1));
    assert_eq!(LetterSprite::new(&text).err(), Some(FormatError::SizeMismatch));
}

#[test]
fn size_that_is_no_number_is_size_mismatch() {
    let text = format!("P3 nine 14 255\n{}", body(1));
    assert_eq!(LetterSprite::new(&text).err(), Some(FormatError::SizeMismatch));
    let text = format!("P3 9 -14 255\n{}", body(1));
    assert_eq!(LetterSprite::new(&text).err(), Some(FormatError::SizeMismatch));
    let text = format!("P3 9 + 255\n{}", body(1));
    assert_eq!(LetterSprite::new(&text).err(), Some(FormatError::SizeMismatch));
    assert_eq!(LetterSprite::new("P3\n").err(), Some(FormatError::SizeMismatch));
    assert_eq!(LetterSprite::new("P3 9\n").err(), Some(FormatError::SizeMismatch));
}

#[test]
fn header_tokens_are_read_before_the_size_is_compared() {
    assert_eq!(LetterSprite::new("P3 10 14 254\n").err(), Some(FormatError::UnsupportedDepth));
    assert_eq!(
        LetterSprite::new("P3 10 14 255 7\n").err(),
        Some(FormatError::TrailingHeaderData)
    );
    assert_eq!(LetterSprite::new("P3 x 14 254 7\n").err(), Some(FormatError::SizeMismatch));
}

#[test]
fn extra_header_token_is_trailing_header_data() {
    let text = format!("P3 9 14 255 0\n{}", body(1));
    assert_eq!(LetterSprite::new(&text).err(), Some(FormatError::TrailingHeaderData));
    let text = format!("P3 9 14 255 # comment\n{}", body(1));
    assert_eq!(LetterSprite::new(&text).err(), Some(FormatError::TrailingHeaderData));
}

#[test]
fn bad_pixel_data_is_pixel_data_error() {
    // too few numbers
    assert_eq!(LetterSprite::new("P3 9 14 255\n").err(), Some(FormatError::PixelDataError));
    let mut short = format!("P3 9 14 255\n{}", body(1));
    short.truncate(short.len() - 3);
    assert_eq!(LetterSprite::new(&short).err(), Some(FormatError::PixelDataError));
    // too many numbers
    let long = format!("P3 9 14 255\n{} 0", body(1));
    assert_eq!(LetterSprite::new(&long).err(), Some(FormatError::PixelDataError));
    // out of range for eight bits
    let big = format!("P3 9 14 255\n{}", body(1)).replacen("1 1 1", "1 256 1", 1);
    assert_eq!(LetterSprite::new(&big).err(), Some(FormatError::PixelDataError));
    // not a number
    let word = format!("P3 9 14 255\n{}", body(1)).replacen("1 1 1", "1 a 1", 1);
    assert_eq!(LetterSprite::new(&word).err(), Some(FormatError::PixelDataError));
    let negative = format!("P3 9 14 255\n{}", body(1)).replacen("1 1 1", "1 -1 1", 1);
    assert_eq!(LetterSprite::new(&negative).err(), Some(FormatError::PixelDataError));
    let fraction = format!("P3 9 14 255\n{}", body(1)).replacen("1 1 1", "1 1.0 1", 1);
    assert_eq!(LetterSprite::new(&fraction).err(), Some(FormatError::PixelDataError));
}

#[test]
fn header_ends_at_the_first_newline_only() {
    // the tokens of the second line belong to the pixel data
    let text = format!("P3 9\n14 255\n{}", body(1));
    assert_eq!(LetterSprite::new(&text).err(), Some(FormatError::SizeMismatch));
    let text = format!("P3 9 14 255\n\n\n{}", body(1));
    assert!(LetterSprite::new(&text).is_ok());
}

#[test]
fn font_file_names() {
    assert_eq!(Font::file_name('A'), "A.ppt");
    assert_eq!(Font::file_name('!'), "!.ppt");
    assert_eq!(Font::file_name('~'), "~.ppt");
    assert_eq!(Font::file_name('/'), "slash.ppt");
    assert_eq!(Font::file_name('\\'), "\\.ppt");
}

#[test]
fn font_alphabet_is_printable_ascii_in_order() {
    assert_eq!(Font::letter_for(0), '!');
    assert_eq!(Font::letter_for(93), '~');
    let alphabet: String = (0..94).map(Font::letter_for).collect();
    assert_eq!(
        alphabet,
        "!\"#$%&'()*+,-./0123456789:;<=>?@ABCDEFGHIJKLMNOPQRSTUVWXYZ[\\]^_`abcdefghijklmnopqrstuvwxyz{|}~"
    );
}

#[test]
fn font_loads_all_glyphs_and_indexes_them_by_letter() {
    let font = Font::new(&resources()).ok().unwrap();
    assert_eq!(font.index('!'), 0);
    assert_eq!(font.index('A'), 32);
    assert_eq!(font.index('~'), 93);
    assert_eq!(font.letter('!').pixel(0, 0), Rgb::new(1, 1, 33));
    assert_eq!(font.letter('A').pixel(2, 3), Rgb::new(3, 4, 65));
    assert_eq!(font.letter('~').pixel(8, 13), Rgb::new(9, 14, 126));
    assert_eq!(font.lookup('_').unwrap().pixel(0, 0), Rgb::new(1, 1, 95));
    assert!(font.lookup(' ').is_none());
    assert!(font.lookup('\t').is_none());
    assert!(font.lookup('\u{7f}').is_none());
    assert!(font.lookup('é').is_none());
}

#[test]
fn font_fails_on_the_first_missing_resource() {
    let mut all = resources();
    all[40] = None;
    all[60] = None;
    assert_eq!(Font::new(&all).err(), Some(FontError::ResourceMissing('I')));
    all.truncate(10);
    assert_eq!(Font::new(&all).err(), Some(FontError::ResourceMissing('+')));
    assert_eq!(Font::new(&Vec::new()).err(), Some(FontError::ResourceMissing('!')));
}

#[test]
fn font_fails_on_the_first_malformed_resource() {
    let mut all = resources();
    all[14] = Some(String::from("P3 9 14 255"));
    all[15] = None;
    all[93] = Some(String::from("P6 9 14 255\n"));
    assert_eq!(
        Font::new(&all).err(),
        Some(FontError::Format('/', FormatError::MissingHeaderSeparator))
    );
    all[14] = Some(resource(0));
    assert_eq!(Font::new(&all).err(), Some(FontError::ResourceMissing('0')));
    all[15] = Some(resource(0));
    assert_eq!(Font::new(&all).err(), Some(FontError::Format('~', FormatError::BadMagic)));
}

#[test]
fn font_ignores_resources_past_the_alphabet() {
    let mut all = resources();
    all.push(None);
    all.push(Some(String::from("junk")));
    assert!(Font::new(&all).is_ok());
}
