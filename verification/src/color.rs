//! The eight named terminal colours and their SGR code strings.

use vstd::prelude::*;

verus! {

/// One of the eight standard terminal colours.
#[derive(Copy, Clone, PartialEq, Eq, Structural, Debug)]
pub enum Color {
    Black,
    Red,
    Green,
    Yellow,
    Blue,
    Purple,
    Cyan,
    White,
}

/// The final digit of the colour's SGR code: `'0'` for Black up to `'7'`
/// for White.
pub open spec fn color_digit(c: Color) -> char {
    match c {
        Color::Black => '0',
        Color::Red => '1',
        Color::Green => '2',
        Color::Yellow => '3',
        Color::Blue => '4',
        Color::Purple => '5',
        Color::Cyan => '6',
        Color::White => '7',
    }
}

/// The SGR code that selects `c` as the foreground colour: `"30"` .. `"37"`.
pub open spec fn fg_code(c: Color) -> Seq<char> {
    seq!['3', color_digit(c)]
}

/// The SGR code that selects `c` as the background colour: `"40"` .. `"47"`.
pub open spec fn bg_code(c: Color) -> Seq<char> {
    seq!['4', color_digit(c)]
}

impl Color {
    /// The foreground SGR code for this colour.
    pub fn fg_str(self) -> (r: &'static str)
        ensures
            r@ == fg_code(self),
    {
        proof {
            reveal_strlit("30");
            reveal_strlit("31");
            reveal_strlit("32");
            reveal_strlit("33");
            reveal_strlit("34");
            reveal_strlit("35");
            reveal_strlit("36");
            reveal_strlit("37");
        }
        match self {
            Color::Black => "30",
            Color::Red => "31",
            Color::Green => "32",
            Color::Yellow => "33",
            Color::Blue => "34",
            Color::Purple => "35",
            Color::Cyan => "36",
            Color::White => "37",
        }
    }

    /// The background SGR code for this colour.
    pub fn bg_str(self) -> (r: &'static str)
        ensures
            r@ == bg_code(self),
    {
        proof {
            reveal_strlit("40");
            reveal_strlit("41");
            reveal_strlit("42");
            reveal_strlit("43");
            reveal_strlit("44");
            reveal_strlit("45");
            reveal_strlit("46");
            reveal_strlit("47");
        }
        match self {
            Color::Black => "40",
            Color::Red => "41",
            Color::Green => "42",
            Color::Yellow => "43",
            Color::Blue => "44",
            Color::Purple => "45",
            Color::Cyan => "46",
            Color::White => "47",
        }
    }
}

/// No two colours share a foreground code: the mapping is injective.
pub proof fn lemma_fg_code_injective(a: Color, b: Color)
    requires
        fg_code(a) == fg_code(b),
    ensures
        a == b,
{
    assert(fg_code(a)[1] == fg_code(b)[1]);
}

} // verus!
