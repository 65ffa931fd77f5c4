//! Glyph sprites and the plain-text image format they are loaded from.
//!
//! A glyph resource is a header line followed by pixel data. The header
//! holds four tokens, separated by white space of any kind: the magic tag
//! `P3`, the width, the height and the largest channel value. The rest of
//! the text holds three decimal channel values per pixel, row by row,
//! separated by ASCII whitespace.

use vstd::prelude::*;
use vstd::slice::slice_subrange;
use crate::common::Rgb;
use crate::scan::{
    bounded_decimal, chars_of, find_newline, first_newline, is_numeral, parse_bounded, spans_match,
    split_tokens, tokens, unsigned_decimal, Spacing,
};

verus! {

/// Width of a glyph cell in pixels.
pub const CHAR_WIDTH: usize = 9;

/// Height of a glyph cell in pixels.
pub const CHAR_HEIGHT: usize = 14;

/// Pixels in a glyph cell.
pub const GLYPH_PIXELS: usize = 126;

/// Channel values in a glyph resource: three per pixel.
pub const GLYPH_CHANNELS: usize = 378;

/// Why a glyph resource was rejected.
#[derive(Debug, Clone, Copy, PartialEq, Eq, Structural)]
pub enum FormatError {
    /// The header's first token is absent or is not the magic tag.
    BadMagic,
    /// The header's fourth token is absent or is not `255`.
    UnsupportedDepth,
    /// The header's second and third token are not numerals, or not the
    /// numbers 9 and 14.
    SizeMismatch,
    /// The header holds more than four tokens.
    TrailingHeaderData,
    /// No line feed ends the header.
    MissingHeaderSeparator,
    /// The pixel data is not exactly 378 numbers from 0 to 255.
    PixelDataError,
}

/// The magic tag, `P3`.
pub open spec fn magic_tag() -> Seq<char> {
    seq!['P', '3']
}

/// The only accepted depth token, `255`.
pub open spec fn depth_tag() -> Seq<char> {
    seq!['2', '5', '5']
}

/// The error of a header, given its tokens, or `None` for a header that is
/// accepted. The tokens are read in order: the magic tag, two numerals for
/// width and height, the depth, and nothing after it. Only then are width
/// and height compared with the size of a glyph cell.
pub open spec fn header_error(header: Seq<Seq<char>>) -> Option<FormatError> {
    if header.len() < 1 || header[0] != magic_tag() {
        Some(FormatError::BadMagic)
    } else if header.len() < 3 || unsigned_decimal(header[1]) is None || unsigned_decimal(
        header[2],
    ) is None {
        Some(FormatError::SizeMismatch)
    } else if header.len() < 4 || header[3] != depth_tag() {
        Some(FormatError::UnsupportedDepth)
    } else if header.len() > 4 {
        Some(FormatError::TrailingHeaderData)
    } else if unsigned_decimal(header[1]) != Some(CHAR_WIDTH as nat) || unsigned_decimal(header[2])
        != Some(CHAR_HEIGHT as nat) {
        Some(FormatError::SizeMismatch)
    } else {
        None
    }
}

/// The channel value that a token of the pixel data denotes.
pub open spec fn channel(token: Seq<char>) -> Option<u32> {
    bounded_decimal(token, 255)
}

/// The pixel number `i` of the pixel data with tokens `body`.
pub open spec fn pixel_of(body: Seq<Seq<char>>, i: int) -> Rgb {
    Rgb {
        r: channel(body[3 * i]).unwrap() as u8,
        g: channel(body[3 * i + 1]).unwrap() as u8,
        b: channel(body[3 * i + 2]).unwrap() as u8,
    }
}

/// The pixels that pixel data with tokens `body` describes, row by row, or
/// `None` where the data is not 378 channel values.
pub open spec fn pixels_of(body: Seq<Seq<char>>) -> Option<Seq<Rgb>> {
    if body.len() == GLYPH_CHANNELS && forall|k: int|
        0 <= k < body.len() ==> (#[trigger] channel(body[k])) is Some {
        Some(Seq::new(GLYPH_PIXELS as nat, |i: int| pixel_of(body, i)))
    } else {
        None
    }
}

/// The tokens of the header of a resource whose first line feed stands at
/// position `n`.
pub open spec fn header_tokens(data: Seq<char>, n: int) -> Seq<Seq<char>> {
    tokens(data.take(n), Spacing::Unicode)
}

/// The tokens of the pixel data of a resource whose first line feed stands
/// at position `n`.
pub open spec fn body_tokens(data: Seq<char>, n: int) -> Seq<Seq<char>> {
    tokens(data.skip(n + 1), Spacing::Ascii)
}

/// What loading a glyph resource with the text `data` gives.
pub open spec fn parse_glyph(data: Seq<char>) -> Result<Seq<Rgb>, FormatError> {
    match first_newline(data) {
        None => Err(FormatError::MissingHeaderSeparator),
        Some(n) => match header_error(header_tokens(data, n)) {
            Some(e) => Err(e),
            None => match pixels_of(body_tokens(data, n)) {
                Some(pixels) => Ok(pixels),
                None => Err(FormatError::PixelDataError),
            },
        },
    }
}

/// The image of one character: 9 by 14 pixels, row by row.
#[derive(Debug, Clone, Copy)]
pub struct LetterSprite {
    pub pixels: [Rgb; 126],
}

fn is_magic_tag(s: &[char], from: usize, to: usize) -> (r: bool)
    requires
        from <= to <= s@.len(),
    ensures
        r == (s@.subrange(from as int, to as int) == magic_tag()),
{
    let ghost token = s@.subrange(from as int, to as int);
    if to - from == 2 && s[from] == 'P' && s[from + 1] == '3' {
        assert(token =~= magic_tag());
        true
    } else {
        assert(magic_tag().len() == 2 && magic_tag()[0] == 'P' && magic_tag()[1] == '3');
        false
    }
}

fn is_depth_tag(s: &[char], from: usize, to: usize) -> (r: bool)
    requires
        from <= to <= s@.len(),
    ensures
        r == (s@.subrange(from as int, to as int) == depth_tag()),
{
    let ghost token = s@.subrange(from as int, to as int);
    if to - from == 3 && s[from] == '2' && s[from + 1] == '5' && s[from + 2] == '5' {
        assert(token =~= depth_tag());
        true
    } else {
        assert(depth_tag().len() == 3 && depth_tag()[0] == '2' && depth_tag()[1] == '5'
            && depth_tag()[2] == '5');
        false
    }
}

/// Checks the header: first its tokens in order, then the size it names.
fn check_header(header: &[char]) -> (r: Option<FormatError>)
    ensures
        r == header_error(tokens(header@, Spacing::Unicode)),
{
    let spans = split_tokens(header, Spacing::Unicode);
    if spans.len() < 1 || !is_magic_tag(header, spans[0].0, spans[0].1) {
        return Some(FormatError::BadMagic);
    }
    if spans.len() < 3 || !is_numeral(header, spans[1].0, spans[1].1) || !is_numeral(
        header,
        spans[2].0,
        spans[2].1,
    ) {
        return Some(FormatError::SizeMismatch);
    }
    if spans.len() < 4 || !is_depth_tag(header, spans[3].0, spans[3].1) {
        return Some(FormatError::UnsupportedDepth);
    }
    if spans.len() > 4 {
        return Some(FormatError::TrailingHeaderData);
    }
    let width = parse_bounded(header, spans[1].0, spans[1].1, CHAR_WIDTH as u32);
    let height = parse_bounded(header, spans[2].0, spans[2].1, CHAR_HEIGHT as u32);
    match (width, height) {
        (Some(w), Some(h)) => if w == CHAR_WIDTH as u32 && h == CHAR_HEIGHT as u32 {
            None
        } else {
            Some(FormatError::SizeMismatch)
        },
        _ => Some(FormatError::SizeMismatch),
    }
}

fn read_channel(body: &[char], spans: &Vec<(usize, usize)>, k: usize) -> (r: Option<u8>)
    requires
        spans_match(body@, spans@, tokens(body@, Spacing::Ascii)),
        k < spans@.len(),
    ensures
        match r {
            Some(v) => channel(tokens(body@, Spacing::Ascii)[k as int]) == Some(v as u32),
            None => channel(tokens(body@, Spacing::Ascii)[k as int]) is None,
        },
{
    let span = spans[k];
    match parse_bounded(body, span.0, span.1, 255) {
        Some(v) => Some(v as u8),
        None => None,
    }
}

/// Reads the pixel data that follows the header.
fn read_pixels(body: &[char]) -> (r: Option<[Rgb; 126]>)
    ensures
        match r {
            Some(pixels) => pixels_of(tokens(body@, Spacing::Ascii)) == Some(pixels@),
            None => pixels_of(tokens(body@, Spacing::Ascii)) is None,
        },
{
    let spans = split_tokens(body, Spacing::Ascii);
    let ghost toks = tokens(body@, Spacing::Ascii);
    if spans.len() != GLYPH_CHANNELS {
        return None;
    }
    let mut pixels: [Rgb; 126] = [Rgb { r: 0, g: 0, b: 0 }; 126];
    let mut i: usize = 0;
    while i < GLYPH_PIXELS
        invariant
            i <= GLYPH_PIXELS,
            toks == tokens(body@, Spacing::Ascii),
            toks.len() == GLYPH_CHANNELS,
            spans_match(body@, spans@, toks),
            forall|k: int| 0 <= k < 3 * i ==> (#[trigger] channel(toks[k])) is Some,
            forall|j: int| 0 <= j < i ==> #[trigger] pixels@[j] == pixel_of(toks, j),
        decreases GLYPH_PIXELS - i,
    {
        let r = match read_channel(body, &spans, 3 * i) {
            Some(v) => v,
            None => {
                return None;
            },
        };
        let g = match read_channel(body, &spans, 3 * i + 1) {
            Some(v) => v,
            None => {
                return None;
            },
        };
        let b = match read_channel(body, &spans, 3 * i + 2) {
            Some(v) => v,
            None => {
                return None;
            },
        };
        pixels[i] = Rgb { r, g, b };
        i += 1;
    }
    Some(pixels)
}

impl LetterSprite {
    /// Loads a glyph from the text of its resource.
    ///
    /// The text must hold a line feed; what stands before the first one is
    /// the header. The header's tokens, separated by white space of any
    /// kind, must be `P3`, the numbers 9 and 14, and `255`, and no more.
    /// After the header must follow 378 numbers from 0 to 255, separated by
    /// ASCII whitespace, and nothing else. A number is written in decimal
    /// digits, with an optional `+` before them.
    pub fn new(data: &str) -> (r: Result<LetterSprite, FormatError>)
        ensures
            match r {
                Ok(sprite) => parse_glyph(data@) == Ok::<Seq<Rgb>, FormatError>(sprite.pixels@),
                Err(e) => parse_glyph(data@) == Err::<Seq<Rgb>, FormatError>(e),
            },
    {
        let chars = chars_of(data);
        let text = chars.as_slice();
        let n = match find_newline(text) {
            Some(n) => n,
            None => {
                return Err(FormatError::MissingHeaderSeparator);
            },
        };
        let len = text.len();
        let header = slice_subrange(text, 0, n);
        let body = slice_subrange(text, n + 1, len);
        match check_header(header) {
            Some(e) => {
                return Err(e);
            },
            None => {},
        }
        match read_pixels(body) {
            Some(pixels) => Ok(LetterSprite { pixels }),
            None => Err(FormatError::PixelDataError),
        }
    }

    /// The colour of the pixel in column `x` of row `y`.
    pub open spec fn at(&self, x: int, y: int) -> Rgb {
        self.pixels@[y * CHAR_WIDTH + x]
    }

    /// The colour of the pixel in column `x` of row `y`.
    pub fn pixel(&self, x: usize, y: usize) -> (c: Rgb)
        requires
            x < CHAR_WIDTH,
            y < CHAR_HEIGHT,
        ensures
            c == self.at(x as int, y as int),
    {
        self.pixels[y * CHAR_WIDTH + x]
    }
}

/// Loading keeps every pixel where the resource has it: the glyph that a
/// well-formed resource gives holds, in column `x` of row `y`, the colour
/// whose red, green and blue are the three numbers that the pixel data
/// holds for that pixel, counted row by row.
pub proof fn lemma_loaded_pixel(data: Seq<char>, x: int, y: int)
    requires
        parse_glyph(data) is Ok,
        0 <= x < CHAR_WIDTH,
        0 <= y < CHAR_HEIGHT,
    ensures
        first_newline(data) is Some,
        ({
            let body = body_tokens(data, first_newline(data)->0);
            let at = y * CHAR_WIDTH + x;
            let loaded = parse_glyph(data)->Ok_0;
            &&& body.len() == GLYPH_CHANNELS
            &&& loaded.len() == GLYPH_PIXELS
            &&& unsigned_decimal(body[3 * at]) == Some(loaded[at].r as nat)
            &&& unsigned_decimal(body[3 * at + 1]) == Some(loaded[at].g as nat)
            &&& unsigned_decimal(body[3 * at + 2]) == Some(loaded[at].b as nat)
        }),
{
}

/// Every malformed header is refused with the error of its fault: a text
/// without a line feed, a first token that is not the magic tag, a width or
/// height that is no numeral, a depth other than `255`, a fifth token, and
/// a size other than 9 by 14. Where a header has several faults, the one
/// named first here decides. A resource whose header is accepted fails
/// only for its pixel data.
pub proof fn lemma_malformed_header(data: Seq<char>)
    ensures
        first_newline(data) is None ==> parse_glyph(data) == Err::<Seq<Rgb>, FormatError>(
            FormatError::MissingHeaderSeparator,
        ),
        first_newline(data) is Some ==> ({
            let header = header_tokens(data, first_newline(data)->0);
            let result = parse_glyph(data);
            let magic = header.len() >= 1 && header[0] == magic_tag();
            let numerals = header.len() >= 3 && unsigned_decimal(header[1]) is Some
                && unsigned_decimal(header[2]) is Some;
            let depth = header.len() >= 4 && header[3] == depth_tag();
            let size = numerals && unsigned_decimal(header[1]) == Some(9nat) && unsigned_decimal(
                header[2],
            ) == Some(14nat);
            &&& !magic ==> result == Err::<Seq<Rgb>, FormatError>(FormatError::BadMagic)
            &&& magic && !numerals ==> result == Err::<Seq<Rgb>, FormatError>(
                FormatError::SizeMismatch,
            )
            &&& magic && numerals && !depth ==> result == Err::<Seq<Rgb>, FormatError>(
                FormatError::UnsupportedDepth,
            )
            &&& magic && numerals && depth && header.len() > 4 ==> result == Err::<
                Seq<Rgb>,
                FormatError,
            >(FormatError::TrailingHeaderData)
            &&& magic && depth && header.len() == 4 && !size ==> result == Err::<
                Seq<Rgb>,
                FormatError,
            >(FormatError::SizeMismatch)
            &&& magic && depth && header.len() == 4 && size ==> (result is Ok || result == Err::<
                Seq<Rgb>,
                FormatError,
            >(FormatError::PixelDataError))
        }),
{
}

} // verus!
