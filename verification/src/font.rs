//! The font: one glyph sprite for each printable ASCII character.

use vstd::prelude::*;
use vstd::string::StringExecFns;
use crate::common::Rgb;
use crate::glyph::{parse_glyph, FormatError, LetterSprite};

verus! {

/// Code of the first letter of the alphabet, `!`.
pub const FIRST_LETTER: u32 = 33;

/// Code of the last letter of the alphabet, `~`.
pub const LAST_LETTER: u32 = 126;

/// Number of letters in the alphabet.
pub const LETTER_COUNT: usize = 94;

/// Whether the font has a glyph for `ch`: the printable ASCII characters
/// from `!` to `~`.
pub open spec fn is_letter(ch: char) -> bool {
    FIRST_LETTER <= ch as u32 <= LAST_LETTER
}

/// The place of a letter in the alphabet.
pub open spec fn letter_index(ch: char) -> int {
    ch as u32 - FIRST_LETTER
}

/// The letter at a place of the alphabet.
pub open spec fn letter_at(i: int) -> char {
    (i + FIRST_LETTER) as char
}

/// The name of the resource that holds the glyph of `ch`: the letter
/// itself, or `slash` for `/`, followed by the extension.
pub open spec fn resource_name(ch: char) -> Seq<char> {
    if ch == '/' {
        "slash"@ + ".ppt"@
    } else {
        seq![ch] + ".ppt"@
    }
}

/// Why a font could not be loaded.
#[derive(Debug, Clone, Copy, PartialEq, Eq, Structural)]
pub enum FontError {
    /// The resource of this letter is absent.
    ResourceMissing(char),
    /// The resource of this letter is not a glyph.
    Format(char, FormatError),
}

/// What loading the glyph at place `i` of the alphabet gives, where
/// `resources` holds the text of each resource that exists, in alphabet
/// order.
pub open spec fn load_result(resources: Seq<Option<String>>, i: int) -> Result<
    Seq<Rgb>,
    FontError,
> {
    if 0 <= i < resources.len() && resources[i] is Some {
        match parse_glyph(resources[i]->0@) {
            Ok(pixels) => Ok(pixels),
            Err(e) => Err(FontError::Format(letter_at(i), e)),
        }
    } else {
        Err(FontError::ResourceMissing(letter_at(i)))
    }
}

/// The complete set of glyphs.
pub struct Font {
    letters: Vec<LetterSprite>,
}

/// `String::push`: appends the character to the end of the string and
/// leaves the rest of it as it was.
#[verifier::external_body]
fn push_char(s: &mut String, ch: char)
    ensures
        final(s)@ == old(s)@.push(ch),
{
    s.push(ch);
}

impl Font {
    /// A font holds a glyph for every letter of the alphabet.
    pub closed spec fn wf(&self) -> bool {
        self.letters@.len() == LETTER_COUNT
    }

    /// The glyph at place `i` of the alphabet.
    pub closed spec fn glyph(&self, i: int) -> LetterSprite {
        self.letters@[i]
    }

    /// The glyph of the letter `ch`.
    pub open spec fn sprite_of(&self, ch: char) -> LetterSprite {
        self.glyph(letter_index(ch))
    }

    /// The letter at place `i` of the alphabet.
    pub fn letter_for(i: usize) -> (ch: char)
        requires
            i < LETTER_COUNT,
        ensures
            ch == letter_at(i as int),
            is_letter(ch),
            letter_index(ch) == i,
    {
        let code: u8 = (i + 33) as u8;
        code as char
    }

    /// The name of the resource that holds the glyph of `ch`.
    pub fn file_name(ch: char) -> (name: String)
        ensures
            name@ == resource_name(ch),
    {
        let mut name = String::new();
        if ch == '/' {
            name.append("slash");
        } else {
            push_char(&mut name, ch);
        }
        name.append(".ppt");
        name
    }

    /// Builds the font from the text of its resources, in alphabet order:
    /// `resources[i]` is the text of the resource of the letter at place
    /// `i`, or `None` where that resource is absent. Places past the end of
    /// `resources` count as absent; entries past the alphabet are ignored.
    ///
    /// All 94 glyphs must load. The first letter whose resource is absent
    /// or malformed decides the error.
    pub fn new(resources: &Vec<Option<String>>) -> (r: Result<Font, FontError>)
        ensures
            match r {
                Ok(font) => {
                    &&& font.wf()
                    &&& forall|i: int|
                        0 <= i < LETTER_COUNT ==> #[trigger] load_result(resources@, i) == Ok::<
                            Seq<Rgb>,
                            FontError,
                        >(font.glyph(i).pixels@)
                },
                Err(e) => exists|i: int|
                    {
                        &&& 0 <= i < LETTER_COUNT
                        &&& #[trigger] load_result(resources@, i) == Err::<Seq<Rgb>, FontError>(e)
                        &&& forall|j: int| 0 <= j < i ==> (#[trigger] load_result(resources@, j)) is Ok
                    },
            },
    {
        let mut letters: Vec<LetterSprite> = Vec::new();
        let mut i: usize = 0;
        while i < LETTER_COUNT
            invariant
                i <= LETTER_COUNT,
                letters@.len() == i,
                forall|j: int|
                    0 <= j < i ==> #[trigger] load_result(resources@, j) == Ok::<
                        Seq<Rgb>,
                        FontError,
                    >(letters@[j].pixels@),
            decreases LETTER_COUNT - i,
        {
            let letter = Font::letter_for(i);
            if i >= resources.len() {
                assert(load_result(resources@, i as int) is Err);
                return Err(FontError::ResourceMissing(letter));
            }
            let sprite = match &resources[i] {
                None => {
                    assert(load_result(resources@, i as int) is Err);
                    return Err(FontError::ResourceMissing(letter));
                },
                Some(text) => match LetterSprite::new(text.as_str()) {
                    Ok(sprite) => sprite,
                    Err(e) => {
                        assert(load_result(resources@, i as int) is Err);
                        return Err(FontError::Format(letter, e));
                    },
                },
            };
            assert(load_result(resources@, i as int) is Ok);
            letters.push(sprite);
            i += 1;
        }
        Ok(Font { letters })
    }

    /// The place of a letter in the alphabet.
    pub fn index(&self, ch: char) -> (i: usize)
        requires
            is_letter(ch),
        ensures
            i == letter_index(ch),
    {
        ch as usize - 33
    }

    /// The glyph of a letter.
    pub fn letter(&self, ch: char) -> (sprite: &LetterSprite)
        requires
            self.wf(),
            is_letter(ch),
        ensures
            *sprite == self.sprite_of(ch),
    {
        &self.letters[ch as usize - 33]
    }

    /// The glyph of `ch`, or `None` where the font has none for it.
    pub fn lookup(&self, ch: char) -> (r: Option<&LetterSprite>)
        requires
            self.wf(),
        ensures
            match r {
                Some(sprite) => is_letter(ch) && *sprite == self.sprite_of(ch),
                None => !is_letter(ch),
            },
    {
        let code = ch as u32;
        if FIRST_LETTER <= code && code <= LAST_LETTER {
            Some(self.letter(ch))
        } else {
            None
        }
    }
}

} // verus!
