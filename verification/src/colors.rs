//! The color palette model: colors as plain red/green/blue triples, read
//! from `#rgb` or `#rrggbb` hex notation. The terminal layer converts the
//! triples into whatever color type it renders with.

use vstd::prelude::*;
use vstd::string::StrSliceExecFns;
use vstd::string::StringExecFns;

verus! {

/// A color as its three channels.
#[derive(Debug, Clone, Copy, PartialEq, Eq, Structural)]
pub struct Rgb {
    pub r: u8,
    pub g: u8,
    pub b: u8,
}

/// Whether the character is a hexadecimal digit.
pub open spec fn is_hex_digit(c: char) -> bool {
    ||| 48 <= c as int <= 57
    ||| 97 <= c as int <= 102
    ||| 65 <= c as int <= 70
}

/// The value of a hexadecimal digit; zero elsewhere.
pub open spec fn hex_digit_val(c: char) -> int {
    if 48 <= c as int <= 57 {
        c as int - 48
    } else if 97 <= c as int <= 102 {
        c as int - 87
    } else if 65 <= c as int <= 70 {
        c as int - 55
    } else {
        0
    }
}

/// What `convert_hex_to_rgb` can read without failing: a leading `#`,
/// and hex digits throughout when the rest is three or six characters
/// long. Any other length falls back to black.
pub open spec fn hex_color_ok(s: Seq<char>) -> bool {
    &&& s.len() >= 1
    &&& (s.len() == 4 ==> forall|i: int| 1 <= i < 4 ==> is_hex_digit(#[trigger] s[i]))
    &&& (s.len() == 7 ==> forall|i: int| 1 <= i < 7 ==> is_hex_digit(#[trigger] s[i]))
}

/// The color a hex string denotes: `#rgb` repeats each digit, `#rrggbb`
/// pairs them, any other length is black.
pub open spec fn spec_hex_color(s: Seq<char>) -> Rgb {
    if s.len() == 4 {
        Rgb {
            r: (17 * hex_digit_val(s[1])) as u8,
            g: (17 * hex_digit_val(s[2])) as u8,
            b: (17 * hex_digit_val(s[3])) as u8,
        }
    } else if s.len() == 7 {
        Rgb {
            r: (16 * hex_digit_val(s[1]) + hex_digit_val(s[2])) as u8,
            g: (16 * hex_digit_val(s[3]) + hex_digit_val(s[4])) as u8,
            b: (16 * hex_digit_val(s[5]) + hex_digit_val(s[6])) as u8,
        }
    } else {
        Rgb { r: 0, g: 0, b: 0 }
    }
}

/// The value of one hex digit character.
fn hex_digit(c: char) -> (r: u8)
    requires
        is_hex_digit(c),
    ensures
        r as int == hex_digit_val(c),
{
    let v = c as u32;
    if 48 <= v && v <= 57 {
        (v - 48) as u8
    } else if 97 <= v && v <= 102 {
        (v - 87) as u8
    } else {
        (v - 55) as u8
    }
}

/// Whether one character is a hex digit.
fn check_hex_digit(c: char) -> (r: bool)
    ensures
        r == is_hex_digit(c),
{
    let v = c as u32;
    (48 <= v && v <= 57) || (97 <= v && v <= 102) || (65 <= v && v <= 70)
}

/// Whether `convert_hex_to_rgb` accepts the string.
pub fn is_valid_hex_color(s: &str) -> (r: bool)
    ensures
        r == hex_color_ok(s@),
{
    let n = s.unicode_len();
    if n == 0 {
        return false;
    }
    if n == 4 || n == 7 {
        let mut i: usize = 1;
        while i < n
            invariant
                1 <= i <= n,
                n == s@.len(),
                n == 4 || n == 7,
                forall|j: int| 1 <= j < i ==> is_hex_digit(#[trigger] s@[j]),
            decreases n - i,
        {
            if !check_hex_digit(s.get_char(i)) {
                proof {
                    assert(!is_hex_digit(s@[i as int]));
                    assert(!hex_color_ok(s@));
                }
                return false;
            }
            i = i + 1;
        }
    }
    true
}

/// Reads `#rgb` or `#rrggbb` into a color; any other length gives black.
pub fn convert_hex_to_rgb(hex: &str) -> (c: Rgb)
    requires
        hex_color_ok(hex@),
    ensures
        c == spec_hex_color(hex@),
{
    let n = hex.unicode_len();
    if n == 4 {
        let r = 17 * hex_digit(hex.get_char(1));
        let g = 17 * hex_digit(hex.get_char(2));
        let b = 17 * hex_digit(hex.get_char(3));
        Rgb { r, g, b }
    } else if n == 7 {
        let r = 16 * hex_digit(hex.get_char(1)) + hex_digit(hex.get_char(2));
        let g = 16 * hex_digit(hex.get_char(3)) + hex_digit(hex.get_char(4));
        let b = 16 * hex_digit(hex.get_char(5)) + hex_digit(hex.get_char(6));
        Rgb { r, g, b }
    } else {
        Rgb { r: 0, g: 0, b: 0 }
    }
}

/// The nine colors the interface draws with.
#[derive(Debug, Clone, Copy, PartialEq, Eq, Structural)]
pub struct ColorPalette {
    pub background: Rgb,
    pub foreground: Rgb,
    pub altbackground: Rgb,
    pub todo: Rgb,
    pub doing: Rgb,
    pub done: Rgb,
    pub info: Rgb,
    pub subtask: Rgb,
    pub cancelled: Rgb,
}

impl ColorPalette {
    /// Builds a palette from nine hex color strings, in the fixed order
    /// background, foreground, altbackground, todo, doing, done, info,
    /// subtask, cancelled.
    pub fn new(colors: Vec<String>) -> (r: Self)
        requires
            colors@.len() >= 9,
            forall|i: int| 0 <= i < 9 ==> hex_color_ok((#[trigger] colors@[i])@),
        ensures
            r.background == spec_hex_color(colors@[0]@),
            r.foreground == spec_hex_color(colors@[1]@),
            r.altbackground == spec_hex_color(colors@[2]@),
            r.todo == spec_hex_color(colors@[3]@),
            r.doing == spec_hex_color(colors@[4]@),
            r.done == spec_hex_color(colors@[5]@),
            r.info == spec_hex_color(colors@[6]@),
            r.subtask == spec_hex_color(colors@[7]@),
            r.cancelled == spec_hex_color(colors@[8]@),
    {
        ColorPalette {
            background: convert_hex_to_rgb(colors[0].as_str()),
            foreground: convert_hex_to_rgb(colors[1].as_str()),
            altbackground: convert_hex_to_rgb(colors[2].as_str()),
            todo: convert_hex_to_rgb(colors[3].as_str()),
            doing: convert_hex_to_rgb(colors[4].as_str()),
            done: convert_hex_to_rgb(colors[5].as_str()),
            info: convert_hex_to_rgb(colors[6].as_str()),
            subtask: convert_hex_to_rgb(colors[7].as_str()),
            cancelled: convert_hex_to_rgb(colors[8].as_str()),
        }
    }
}

/// The built-in theme's colors.
pub open spec fn default_color_palette() -> ColorPalette {
    ColorPalette {
        background: Rgb { r: 25, g: 23, b: 36 },
        foreground: Rgb { r: 224, g: 222, b: 244 },
        altbackground: Rgb { r: 31, g: 29, b: 46 },
        todo: Rgb { r: 246, g: 193, b: 119 },
        doing: Rgb { r: 196, g: 167, b: 231 },
        done: Rgb { r: 49, g: 116, b: 143 },
        info: Rgb { r: 235, g: 188, b: 186 },
        subtask: Rgb { r: 156, g: 207, b: 216 },
        cancelled: Rgb { r: 235, g: 111, b: 146 },
    }
}

impl Default for ColorPalette {
    /// The built-in theme, used when no config file provides one.
    fn default() -> (r: Self)
        ensures
            r == default_color_palette(),
    {
        ColorPalette {
            background: Rgb { r: 25, g: 23, b: 36 },
            foreground: Rgb { r: 224, g: 222, b: 244 },
            altbackground: Rgb { r: 31, g: 29, b: 46 },
            todo: Rgb { r: 246, g: 193, b: 119 },
            doing: Rgb { r: 196, g: 167, b: 231 },
            done: Rgb { r: 49, g: 116, b: 143 },
            info: Rgb { r: 235, g: 188, b: 186 },
            subtask: Rgb { r: 156, g: 207, b: 216 },
            cancelled: Rgb { r: 235, g: 111, b: 146 },
        }
    }
}

/// A named palette.
#[derive(Debug, Clone)]
pub struct Palette {
    pub name: String,
    pub colors: ColorPalette,
}

impl Palette {
    pub fn new(palette_name: &str, colors: ColorPalette) -> (r: Self)
        ensures
            r.name@ == palette_name@,
            r.colors == colors,
    {
        Palette { name: String::from_str(palette_name), colors }
    }
}

impl Default for Palette {
    /// The built-in theme under the name "default".
    fn default() -> (r: Self)
        ensures
            r.name@ == "default"@,
            r.colors == default_color_palette(),
    {
        Palette { name: String::from_str("default"), colors: ColorPalette::default() }
    }
}

} // verus!
