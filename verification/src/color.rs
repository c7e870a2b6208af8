//! Colors: three 8-bit channels, read from `#RRGGBB` or from a named palette.
use crate::error::Error;
use crate::text::{lowercase, push_char, str_eq, to_lowercase};
use vstd::prelude::*;

verus! {

/// An opaque color of three 8-bit channels.
#[derive(Clone, Copy, Debug, PartialEq, Eq, Structural)]
pub struct Color {
    pub r: u8,
    pub g: u8,
    pub b: u8,
}

/// The named colors.
pub struct Palette {}

/// The value of a hexadecimal digit, of either case.
pub open spec fn hex_value(c: char) -> Option<u8> {
    if '0' <= c <= '9' {
        Some((c as u32 - '0' as u32) as u8)
    } else if 'a' <= c <= 'f' {
        Some((c as u32 - 'a' as u32 + 10) as u8)
    } else if 'A' <= c <= 'F' {
        Some((c as u32 - 'A' as u32 + 10) as u8)
    } else {
        None
    }
}

/// The byte that two hexadecimal digits write.
pub open spec fn hex_byte(high: char, low: char) -> Option<u8> {
    match (hex_value(high), hex_value(low)) {
        (Some(h), Some(l)) => Some((h * 16 + l) as u8),
        _ => None,
    }
}

/// The color that a text of the form `#RRGGBB` writes.
pub open spec fn hex_color(s: Seq<char>) -> Option<Color>
    recommends
        s.len() == 7,
{
    match (hex_byte(s[1], s[2]), hex_byte(s[3], s[4]), hex_byte(s[5], s[6])) {
        (Some(r), Some(g), Some(b)) => Some(Color { r, g, b }),
        _ => None,
    }
}

/// The color of a palette name, written in lower case.
pub open spec fn palette_color(name: Seq<char>) -> Option<Color> {
    if name == "white"@ {
        Some(Color { r: 0, g: 0, b: 0 })
    } else if name == "black"@ {
        Some(Color { r: 255, g: 255, b: 255 })
    } else if name == "green"@ {
        Some(Color { r: 62, g: 179, b: 112 })
    } else if name == "paris green"@ {
        Some(Color { r: 0, g: 163, b: 129 })
    } else if name == "blue"@ {
        Some(Color { r: 0, g: 149, b: 217 })
    } else if name == "indigo blue"@ {
        Some(Color { r: 39, g: 74, b: 120 })
    } else if name == "red"@ {
        Some(Color { r: 230, g: 0, b: 51 })
    } else if name == "deep scarlet"@ {
        Some(Color { r: 201, g: 23, b: 30 })
    } else {
        None
    }
}

/// The color that a word writes: seven characters that begin with `#` are
/// read as `#RRGGBB`, anything else as a palette name in any case.
pub open spec fn parse_color(s: Seq<char>) -> Option<Color> {
    if s.len() == 7 && s[0] == '#' {
        hex_color(s)
    } else {
        palette_color(lowercase(s))
    }
}

/// The lower-case hexadecimal digit of a value below 16.
pub open spec fn hex_digit(v: int) -> char
    recommends
        0 <= v < 16,
{
    if v < 10 {
        ('0' as u32 + v) as char
    } else {
        ('a' as u32 + v - 10) as char
    }
}

fn hex_value_of(c: char) -> (r: Option<u8>)
    ensures
        r == hex_value(c),
{
    let v: u32 = c as u32;
    if 48 <= v && v <= 57 {
        Some((v - 48) as u8)
    } else if 97 <= v && v <= 102 {
        Some((v - 97 + 10) as u8)
    } else if 65 <= v && v <= 70 {
        Some((v - 65 + 10) as u8)
    } else {
        None
    }
}

fn hex_byte_of(high: char, low: char) -> (r: Option<u8>)
    ensures
        r == hex_byte(high, low),
{
    match (hex_value_of(high), hex_value_of(low)) {
        (Some(h), Some(l)) => Some(h * 16 + l),
        _ => None,
    }
}

fn hex_digit_of(v: u8) -> (c: char)
    requires
        v < 16,
    ensures
        c == hex_digit(v as int),
{
    if v < 10 {
        (48 + v) as char
    } else {
        (97 + v - 10) as char
    }
}

impl Default for Color {
    fn default() -> (c: Color)
        ensures
            c == (Color { r: 255, g: 255, b: 255 }),
    {
        Color { r: 255, g: 255, b: 255 }
    }
}

impl Color {
    pub fn new(r: u8, g: u8, b: u8) -> (c: Color)
        ensures
            c == (Color { r, g, b }),
    {
        Color { r, g, b }
    }

    /// The color as `#rrggbb`: two lower-case hexadecimal digits for each
    /// channel.
    pub open spec fn hex(self) -> Seq<char> {
        seq![
            '#',
            hex_digit(self.r as int / 16),
            hex_digit(self.r as int % 16),
            hex_digit(self.g as int / 16),
            hex_digit(self.g as int % 16),
            hex_digit(self.b as int / 16),
            hex_digit(self.b as int % 16),
        ]
    }

    /// Reads a color from a word.
    pub fn from_str_based_on(s: &str) -> (r: Result<Color, Error>)
        ensures
            r == match parse_color(s@) {
                Some(c) => Ok::<Color, Error>(c),
                None => Err(Error::BadColor),
            },
    {
        let chars: Vec<char> = crate::text::chars_of(s);
        if chars.len() == 7 && chars[0] == '#' {
            let r = hex_byte_of(chars[1], chars[2]);
            let g = hex_byte_of(chars[3], chars[4]);
            let b = hex_byte_of(chars[5], chars[6]);
            match (r, g, b) {
                (Some(r), Some(g), Some(b)) => Ok(Color { r, g, b }),
                _ => Err(Error::BadColor),
            }
        } else {
            Palette::get(s)
        }
    }

    /// The color written as `#rrggbb`.
    pub fn to_hex(&self) -> (s: String)
        ensures
            s@ == self.hex(),
    {
        let mut s: String = String::new();
        push_char(&mut s, '#');
        push_char(&mut s, hex_digit_of(self.r / 16));
        push_char(&mut s, hex_digit_of(self.r % 16));
        push_char(&mut s, hex_digit_of(self.g / 16));
        push_char(&mut s, hex_digit_of(self.g % 16));
        push_char(&mut s, hex_digit_of(self.b / 16));
        push_char(&mut s, hex_digit_of(self.b % 16));
        assert(s@ =~= self.hex());
        s
    }
}

impl Palette {
    pub fn white() -> (c: Color)
        ensures
            c == (Color { r: 0, g: 0, b: 0 }),
    {
        Color { r: 0, g: 0, b: 0 }
    }

    pub fn black() -> (c: Color)
        ensures
            c == (Color { r: 255, g: 255, b: 255 }),
    {
        Color { r: 255, g: 255, b: 255 }
    }

    pub fn green() -> (c: Color)
        ensures
            c == (Color { r: 62, g: 179, b: 112 }),
    {
        Color { r: 62, g: 179, b: 112 }
    }

    pub fn paris_green() -> (c: Color)
        ensures
            c == (Color { r: 0, g: 163, b: 129 }),
    {
        Color { r: 0, g: 163, b: 129 }
    }

    pub fn blue() -> (c: Color)
        ensures
            c == (Color { r: 0, g: 149, b: 217 }),
    {
        Color { r: 0, g: 149, b: 217 }
    }

    pub fn indigo_blue() -> (c: Color)
        ensures
            c == (Color { r: 39, g: 74, b: 120 }),
    {
        Color { r: 39, g: 74, b: 120 }
    }

    pub fn red() -> (c: Color)
        ensures
            c == (Color { r: 230, g: 0, b: 51 }),
    {
        Color { r: 230, g: 0, b: 51 }
    }

    pub fn deep_scarlet() -> (c: Color)
        ensures
            c == (Color { r: 201, g: 23, b: 30 }),
    {
        Color { r: 201, g: 23, b: 30 }
    }

    /// The color of a palette name, in any case.
    pub fn get(s: &str) -> (r: Result<Color, Error>)
        ensures
            r == match palette_color(lowercase(s@)) {
                Some(c) => Ok::<Color, Error>(c),
                None => Err(Error::BadColor),
            },
    {
        let lower: String = to_lowercase(s);
        Palette::get_lowered(lower.as_str())
    }

    /// The color of a palette name that is written in lower case.
    pub fn get_lowered(name: &str) -> (r: Result<Color, Error>)
        ensures
            r == match palette_color(name@) {
                Some(c) => Ok::<Color, Error>(c),
                None => Err(Error::BadColor),
            },
    {
        if str_eq(name, "white") {
            Ok(Palette::white())
        } else if str_eq(name, "black") {
            Ok(Palette::black())
        } else if str_eq(name, "green") {
            Ok(Palette::green())
        } else if str_eq(name, "paris green") {
            Ok(Palette::paris_green())
        } else if str_eq(name, "blue") {
            Ok(Palette::blue())
        } else if str_eq(name, "indigo blue") {
            Ok(Palette::indigo_blue())
        } else if str_eq(name, "red") {
            Ok(Palette::red())
        } else if str_eq(name, "deep scarlet") {
            Ok(Palette::deep_scarlet())
        } else {
            Err(Error::BadColor)
        }
    }
}

} // verus!
