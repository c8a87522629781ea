//! Mahjong tiles and a plain-text form for hands of them.
//!
//! Each tile has a six-bit code; a hand is written as one character of the
//! Base64 alphabet per tile, so it can travel over email, SMS or chat.
use vstd::prelude::*;
use vstd::string::StringSliceAdditionalSpecFns;
use vstd::utf8::{encode_utf8, is_ascii_chars, is_ascii_chars_encode_utf8};

mod lookup;
mod tiles;

pub use lookup::{
    alphabet, alphabet_char, code_of_symbol, lemma_alphabet_inverse, lemma_tile_code_inverse,
    symbol_code, tile_for_byte, tile_for_code, tile_of_byte, tile_of_code,
};
pub use tiles::{
    dragon_code, get_all_tiles, lemma_codes_distinct, lemma_listed_codes_distinct, listed_tile,
    tile_code, wind_code, Dragon, Suit, ToByte, Wind, RED_FIVE,
};

verus! {

/// Why text could not be read back as tiles.
#[derive(Debug, Clone, Copy, PartialEq, Eq, Structural)]
pub enum DecodeErr {
    /// A byte of the text stands for no tile.
    InvalidCharacter,
}

/// The text of a hand: one alphabet character per tile, in order.
pub open spec fn encoded(hand: Seq<Suit>) -> Seq<char> {
    hand.map_values(|t: Suit| alphabet_char(tile_code(t)))
}

/// Every byte of the text stands for a tile.
pub open spec fn decodable(bytes: Seq<u8>) -> bool {
    forall|i: int| 0 <= i < bytes.len() ==> (#[trigger] tile_of_byte(bytes[i])) is Some
}

/// The hand that the bytes of a text stand for, or `InvalidCharacter` as soon
/// as one of them stands for none.
pub open spec fn decoded(bytes: Seq<u8>) -> Result<Seq<Suit>, DecodeErr> {
    if decodable(bytes) {
        Ok(bytes.map_values(|b: u8| tile_of_byte(b)->Some_0))
    } else {
        Err(DecodeErr::InvalidCharacter)
    }
}

impl Suit {
    /// Writes a hand as text, one alphabet character per tile.
    pub fn to_string(hand: &[Suit]) -> (r: String)
        ensures
            r@ == encoded(hand@),
            r@.len() == hand@.len(),
            r.is_ascii(),
    {
        let symbols = alphabet();
        let mut out = String::new();
        let mut i: usize = 0;
        while i < hand.len()
            invariant
                i <= hand@.len(),
                out@ == encoded(hand@.take(i as int)),
                symbols@.len() == 64,
                symbols.is_ascii(),
                forall|code: u8| code < 64 ==> symbols@[code as int] == #[trigger] alphabet_char(code),
            decreases hand@.len() - i,
        {
            let code = hand[i].to_byte();
            let c = code as usize;
            let symbol = symbols.substring_ascii(c, c + 1);
            out.append(symbol);
            proof {
                assert(symbol@ =~= seq![alphabet_char(code)]);
                assert(hand@.take(i + 1) =~= hand@.take(i as int).push(hand@[i as int]));
                assert(out@ =~= encoded(hand@.take(i + 1)));
            }
            i = i + 1;
        }
        proof {
            assert(hand@.take(i as int) =~= hand@);
            assert forall|k: int| 0 <= k < out@.len() implies '\0' <= #[trigger] out@[k] <= '\u{7f}' by {
                lemma_alphabet_inverse(tile_code(hand@[k]));
            }
        }
        out
    }

    /// Reads a hand back from text, byte by byte; fails with
    /// `InvalidCharacter` at the first byte that stands for no tile.
    pub fn from_string(input: &str) -> (r: Result<Vec<Suit>, DecodeErr>)
        ensures
            match r {
                Ok(v) => decoded(input.spec_bytes()) == Ok::<Seq<Suit>, DecodeErr>(v@),
                Err(e) => decoded(input.spec_bytes()) == Err::<Seq<Suit>, DecodeErr>(e),
            },
    {
        let bytes = input.as_bytes();
        let mut out: Vec<Suit> = Vec::new();
        let mut i: usize = 0;
        while i < bytes.len()
            invariant
                i <= bytes@.len(),
                bytes@ == input.spec_bytes(),
                out@.len() == i,
                forall|k: int| 0 <= k < i ==> (#[trigger] tile_of_byte(bytes@[k])) == Some(out@[k]),
            decreases bytes@.len() - i,
        {
            match tile_for_byte(bytes[i]) {
                Some(t) => out.push(t),
                None => {
                    assert(!decodable(bytes@));
                    return Err(DecodeErr::InvalidCharacter);
                },
            }
            i = i + 1;
        }
        assert(decodable(bytes@));
        assert(out@ =~= bytes@.map_values(|b: u8| tile_of_byte(b)->Some_0));
        Ok(out)
    }
}

/// Decoding the bytes of an encoded hand of valid tiles gives the hand back.
pub proof fn lemma_round_trip(hand: Seq<Suit>)
    requires
        forall|i: int| 0 <= i < hand.len() ==> (#[trigger] hand[i]).is_valid(),
    ensures
        decoded(encode_utf8(encoded(hand))) == Ok::<Seq<Suit>, DecodeErr>(hand),
{
    let chars = encoded(hand);
    assert forall|i: int| 0 <= i < chars.len() implies '\0' <= #[trigger] chars[i] <= '\u{7f}' by {
        lemma_alphabet_inverse(tile_code(hand[i]));
    }
    assert(is_ascii_chars(chars));
    is_ascii_chars_encode_utf8(chars);
    let bytes = encode_utf8(chars);
    assert forall|i: int| 0 <= i < bytes.len() implies #[trigger] tile_of_byte(bytes[i]) == Some(hand[i]) by {
        assert(bytes[i] == chars[i] as u8);
        lemma_alphabet_inverse(tile_code(hand[i]));
        lemma_tile_code_inverse(hand[i]);
    }
    assert(decodable(bytes));
    assert(bytes.map_values(|b: u8| tile_of_byte(b)->Some_0) =~= hand);
}

/// Text holding a byte outside the alphabet does not decode.
pub proof fn lemma_foreign_byte_rejected(bytes: Seq<u8>, i: int)
    requires
        0 <= i < bytes.len(),
        symbol_code(bytes[i]) is None,
    ensures
        decoded(bytes) == Err::<Seq<Suit>, DecodeErr>(DecodeErr::InvalidCharacter),
{
    assert(tile_of_byte(bytes[i]) is None);
}

} // verus!
