//! Tile values and their six-bit codes.
use vstd::prelude::*;

verus! {

/// 数牌 (suupai): a tile. A hand is a `Vec<Suit>`.
///
/// A numbered tile carries its rank, `0..=9`, or [`RED_FIVE`] for the red
/// variant of the five. Only the low four bits of a rank reach the code, so a
/// rank above [`RED_FIVE`] shares its code with a smaller one: such a tile is
/// not [`Suit::is_valid`], and decoding never produces it.
#[derive(Debug, Clone, Copy, PartialEq, Eq, Structural)]
pub enum Suit {
    /// 餅子 (pinzu)
    Dots(u8),
    /// 索子 (so-zu)
    Bamboo(u8),
    /// 萬子 (manzu)
    Characters(u8),
    /// 風牌 (fompai)
    Wind(Wind),
    /// 三元牌 (sangempai)
    Dragon(Dragon),
}

/// 三元牌 (sangempai): the dragon honours.
#[derive(Debug, Clone, Copy, PartialEq, Eq, Structural)]
pub enum Dragon {
    /// 白 (shiro)
    White,
    /// 中 (chun)
    Red,
    /// 發 (hatsu)
    Green,
}

/// 風牌 (fompai): the wind honours.
#[derive(Debug, Clone, Copy, PartialEq, Eq, Structural)]
pub enum Wind {
    /// 南 (nan)
    South,
    /// 東 (ton)
    East,
    /// 北 (pei)
    North,
    /// 西 (sha)
    West,
}

/// 赤牌 (akapai): the rank that marks the red five.
pub const RED_FIVE: u8 = 0xA;

/// The code of a wind: `0x0C`, `0x1C`, `0x2C`, `0x3C`.
pub open spec fn wind_code(w: Wind) -> u8 {
    match w {
        Wind::South => 0x0C,
        Wind::East => 0x1C,
        Wind::North => 0x2C,
        Wind::West => 0x3C,
    }
}

/// The code of a dragon: `0x0D`, `0x1D`, `0x2D`.
pub open spec fn dragon_code(d: Dragon) -> u8 {
    match d {
        Dragon::White => 0x0D,
        Dragon::Red => 0x1D,
        Dragon::Green => 0x2D,
    }
}

/// The code of a tile: the suit's base (`0x10`, `0x20`, `0x30`) joined with
/// the low four bits of the rank, or the honour's fixed code.
pub open spec fn tile_code(t: Suit) -> u8 {
    match t {
        Suit::Dots(n) => (0x10 + n % 16) as u8,
        Suit::Bamboo(n) => (0x20 + n % 16) as u8,
        Suit::Characters(n) => (0x30 + n % 16) as u8,
        Suit::Wind(w) => wind_code(w),
        Suit::Dragon(d) => dragon_code(d),
    }
}

impl Suit {
    /// A numbered tile has a rank of at most [`RED_FIVE`]; every honour is valid.
    pub open spec fn is_valid(self) -> bool {
        match self {
            Suit::Dots(n) => n <= RED_FIVE,
            Suit::Bamboo(n) => n <= RED_FIVE,
            Suit::Characters(n) => n <= RED_FIVE,
            _ => true,
        }
    }
}

/// What can be turned into a six-bit code.
pub trait ToByte {
    /// The value's code, at most `0x3F`.
    fn to_byte(&self) -> (r: u8)
        ensures
            r <= 0x3F,
    ;
}

/// `n & 0xF` is the rank modulo sixteen, and joining it to a base that is a
/// multiple of sixteen is an addition.
proof fn lemma_join_rank(base: u8, n: u8)
    requires
        base == 0x10 || base == 0x20 || base == 0x30,
    ensures
        base | (n & 0xF) == base + n % 16,
{
    assert(base | (n & 0xF) == base + n % 16) by (bit_vector)
        requires
            base == 0x10 || base == 0x20 || base == 0x30,
    ;
}

impl ToByte for Suit {
    fn to_byte(&self) -> (r: u8)
        ensures
            r == tile_code(*self),
    {
        match self {
            Suit::Dots(n) => {
                proof { lemma_join_rank(0x10, *n); }
                0x10 | (*n & 0xF)
            },
            Suit::Bamboo(n) => {
                proof { lemma_join_rank(0x20, *n); }
                0x20 | (*n & 0xF)
            },
            Suit::Characters(n) => {
                proof { lemma_join_rank(0x30, *n); }
                0x30 | (*n & 0xF)
            },
            Suit::Wind(w) => w.to_byte(),
            Suit::Dragon(d) => d.to_byte(),
        }
    }
}

impl ToByte for Wind {
    fn to_byte(&self) -> (r: u8)
        ensures
            r == wind_code(*self),
    {
        match self {
            Wind::South => 0x0C,
            Wind::East => 0x1C,
            Wind::North => 0x2C,
            Wind::West => 0x3C,
        }
    }
}

impl ToByte for Dragon {
    fn to_byte(&self) -> (r: u8)
        ensures
            r == dragon_code(*self),
    {
        match self {
            Dragon::White => 0x0D,
            Dragon::Red => 0x1D,
            Dragon::Green => 0x2D,
        }
    }
}

/// Two valid tiles share a code only if they are the same tile, and every
/// code is at most `0x3F`.
pub proof fn lemma_codes_distinct(a: Suit, b: Suit)
    requires
        a.is_valid(),
        b.is_valid(),
    ensures
        tile_code(a) <= 0x3F,
        tile_code(a) == tile_code(b) ==> a == b,
{
}

/// The tile at position `i` of the full set: the three suits with ranks
/// `0..=9`, then the winds South, East, North, West, then the dragons White,
/// Red, Green.
pub open spec fn listed_tile(i: int) -> Suit {
    if i < 10 {
        Suit::Dots(i as u8)
    } else if i < 20 {
        Suit::Bamboo((i - 10) as u8)
    } else if i < 30 {
        Suit::Characters((i - 20) as u8)
    } else if i == 30 {
        Suit::Wind(Wind::South)
    } else if i == 31 {
        Suit::Wind(Wind::East)
    } else if i == 32 {
        Suit::Wind(Wind::North)
    } else if i == 33 {
        Suit::Wind(Wind::West)
    } else if i == 34 {
        Suit::Dragon(Dragon::White)
    } else if i == 35 {
        Suit::Dragon(Dragon::Red)
    } else {
        Suit::Dragon(Dragon::Green)
    }
}

/// The 37 tiles of the full set have codes of at most `0x3F`, no two alike.
pub proof fn lemma_listed_codes_distinct()
    ensures
        forall|i: int| 0 <= i < 37 ==> #[trigger] tile_code(listed_tile(i)) <= 0x3F,
        forall|i: int, j: int|
            0 <= i < 37 && 0 <= j < 37 && i != j ==> #[trigger] tile_code(listed_tile(i))
                != #[trigger] tile_code(listed_tile(j)),
{
    assert forall|i: int, j: int|
        0 <= i < 37 && 0 <= j < 37 && i != j implies #[trigger] tile_code(listed_tile(i))
            != #[trigger] tile_code(listed_tile(j)) by {
        lemma_codes_distinct(listed_tile(i), listed_tile(j));
    }
}

/// The full set of tiles, in the order of `listed_tile`.
pub fn get_all_tiles() -> (r: Vec<Suit>)
    ensures
        r@ == Seq::new(37, |i: int| listed_tile(i)),
{
    let mut all: Vec<Suit> = Vec::new();
    let mut suit: u8 = 0;
    while suit < 3
        invariant
            suit <= 3,
            all@ == Seq::new(10 * suit as nat, |i: int| listed_tile(i)),
        decreases 3 - suit,
    {
        let mut rank: u8 = 0;
        while rank < 10
            invariant
                suit < 3,
                rank <= 10,
                all@ == Seq::new((10 * suit + rank) as nat, |i: int| listed_tile(i)),
            decreases 10 - rank,
        {
            let tile = if suit == 0 {
                Suit::Dots(rank)
            } else if suit == 1 {
                Suit::Bamboo(rank)
            } else {
                Suit::Characters(rank)
            };
            all.push(tile);
            assert(all@ =~= Seq::new((10 * suit + rank + 1) as nat, |i: int| listed_tile(i)));
            rank = rank + 1;
        }
        suit = suit + 1;
    }
    all.push(Suit::Wind(Wind::South));
    all.push(Suit::Wind(Wind::East));
    all.push(Suit::Wind(Wind::North));
    all.push(Suit::Wind(Wind::West));
    all.push(Suit::Dragon(Dragon::White));
    all.push(Suit::Dragon(Dragon::Red));
    all.push(Suit::Dragon(Dragon::Green));
    assert(all@ =~= Seq::new(37, |i: int| listed_tile(i)));
    all
}

} // verus!
