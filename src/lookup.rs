//! The Base64 alphabet that renders a code, and the way back from a
//! character to a code and a tile.
use vstd::prelude::*;

use crate::tiles::{tile_code, Dragon, Suit, Wind};

verus! {

/// The character for a code below 64: `A`–`Z`, `a`–`z`, `0`–`9`, `+`, `/`, in
/// that order.
pub open spec fn alphabet_char(code: u8) -> char {
    if code < 26 {
        (65 + code) as char
    } else if code < 52 {
        (97 + (code - 26)) as char
    } else if code < 62 {
        (48 + (code - 52)) as char
    } else if code == 62 {
        '+'
    } else {
        '/'
    }
}

/// The code that a byte stands for in the alphabet, or `None` for a byte
/// outside it.
pub open spec fn symbol_code(b: u8) -> Option<u8> {
    if 65 <= b <= 90 {
        Some((b - 65) as u8)
    } else if 97 <= b <= 122 {
        Some((b - 97 + 26) as u8)
    } else if 48 <= b <= 57 {
        Some((b - 48 + 52) as u8)
    } else if b == 43 {
        Some(62u8)
    } else if b == 47 {
        Some(63u8)
    } else {
        None
    }
}

/// The valid tile whose code is `code`, or `None` where no tile has it.
pub open spec fn tile_of_code(code: u8) -> Option<Suit> {
    let hi = code / 16;
    let lo = code % 16;
    if 1 <= hi <= 3 && lo <= 10 {
        if hi == 1 {
            Some(Suit::Dots(lo))
        } else if hi == 2 {
            Some(Suit::Bamboo(lo))
        } else {
            Some(Suit::Characters(lo))
        }
    } else if code == 0x0C {
        Some(Suit::Wind(Wind::South))
    } else if code == 0x1C {
        Some(Suit::Wind(Wind::East))
    } else if code == 0x2C {
        Some(Suit::Wind(Wind::North))
    } else if code == 0x3C {
        Some(Suit::Wind(Wind::West))
    } else if code == 0x0D {
        Some(Suit::Dragon(Dragon::White))
    } else if code == 0x1D {
        Some(Suit::Dragon(Dragon::Red))
    } else if code == 0x2D {
        Some(Suit::Dragon(Dragon::Green))
    } else {
        None
    }
}

/// The tile that a byte of text stands for, or `None`.
pub open spec fn tile_of_byte(b: u8) -> Option<Suit> {
    match symbol_code(b) {
        Some(code) => tile_of_code(code),
        None => None,
    }
}

/// The alphabet as text: its character at position `code` is
/// `alphabet_char(code)`.
pub fn alphabet() -> (r: &'static str)
    ensures
        r@.len() == 64,
        r.is_ascii(),
        forall|code: u8| code < 64 ==> r@[code as int] == #[trigger] alphabet_char(code),
{
    let r: &'static str = "ABCDEFGHIJKLMNOPQRSTUVWXYZabcdefghijklmnopqrstuvwxyz0123456789+/";
    proof {
        reveal_strlit("ABCDEFGHIJKLMNOPQRSTUVWXYZabcdefghijklmnopqrstuvwxyz0123456789+/");
        assert forall|code: u8| code < 64 implies r@[code as int] == #[trigger] alphabet_char(code) by {
        }
    }
    r
}

/// The code that the byte `b` stands for in the alphabet.
pub fn code_of_symbol(b: u8) -> (r: Option<u8>)
    ensures
        r == symbol_code(b),
{
    if 65 <= b && b <= 90 {
        // 'A'..='Z'
        Some(b - 65)
    } else if 97 <= b && b <= 122 {
        // 'a'..='z'
        Some(b - 97 + 26)
    } else if 48 <= b && b <= 57 {
        // '0'..='9'
        Some(b - 48 + 52)
    } else if b == 43 {
        // '+'
        Some(62)
    } else if b == 47 {
        // '/'
        Some(63)
    } else {
        None
    }
}

/// The valid tile whose code is `code`.
pub fn tile_for_code(code: u8) -> (r: Option<Suit>)
    ensures
        r == tile_of_code(code),
{
    let hi = code / 16;
    let lo = code % 16;
    if 1 <= hi && hi <= 3 && lo <= 10 {
        if hi == 1 {
            Some(Suit::Dots(lo))
        } else if hi == 2 {
            Some(Suit::Bamboo(lo))
        } else {
            Some(Suit::Characters(lo))
        }
    } else if code == 0x0C {
        Some(Suit::Wind(Wind::South))
    } else if code == 0x1C {
        Some(Suit::Wind(Wind::East))
    } else if code == 0x2C {
        Some(Suit::Wind(Wind::North))
    } else if code == 0x3C {
        Some(Suit::Wind(Wind::West))
    } else if code == 0x0D {
        Some(Suit::Dragon(Dragon::White))
    } else if code == 0x1D {
        Some(Suit::Dragon(Dragon::Red))
    } else if code == 0x2D {
        Some(Suit::Dragon(Dragon::Green))
    } else {
        None
    }
}

/// The tile that the byte `b` of a text stands for.
pub fn tile_for_byte(b: u8) -> (r: Option<Suit>)
    ensures
        r == tile_of_byte(b),
{
    match code_of_symbol(b) {
        Some(code) => tile_for_code(code),
        None => None,
    }
}

/// A valid tile's code is below 64 and leads back to the tile.
pub proof fn lemma_tile_code_inverse(t: Suit)
    requires
        t.is_valid(),
    ensures
        tile_code(t) < 64,
        tile_of_code(tile_code(t)) == Some(t),
{
}

/// The alphabet's character for a code is ASCII, and its byte leads back to
/// the code.
pub proof fn lemma_alphabet_inverse(code: u8)
    requires
        code < 64,
    ensures
        (alphabet_char(code) as u32) < 128,
        symbol_code(alphabet_char(code) as u8) == Some(code),
{
}

} // verus!
