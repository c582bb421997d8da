//! Cells and the color palette.

use vstd::prelude::*;

verus! {

/// A terminal color. The first eight variants form the palette that
/// painting, random fills, and births draw from; `Black` and `Grey`
/// additionally appear in rendering.
#[derive(Copy, Clone, Eq, Hash, PartialEq, Structural, Debug)]
pub enum Color {
    White,
    Red,
    Yellow,
    Green,
    Blue,
    Cyan,
    Magenta,
    DarkGrey,
    Black,
    Grey,
}

/// The number of distinct colors a cell can carry.
pub const COLOR_COUNT: u8 = 10;

/// One grid position: dead, or alive with a color.
#[derive(Copy, Clone, Eq, Hash, PartialEq, Structural, Debug)]
pub enum Cell {
    Alive(Color),
    Dead,
}

/// The position of a color in the fixed color order. The first eight
/// (White through DarkGrey) are the paintable palette, in the order the
/// digit keys and the random fill use.
pub open spec fn spec_color_index(c: Color) -> int {
    match c {
        Color::White => 0,
        Color::Red => 1,
        Color::Yellow => 2,
        Color::Green => 3,
        Color::Blue => 4,
        Color::Cyan => 5,
        Color::Magenta => 6,
        Color::DarkGrey => 7,
        Color::Black => 8,
        Color::Grey => 9,
    }
}

/// The color at a position of the fixed color order; positions outside
/// the order give `White`.
pub open spec fn spec_color_of_index(i: int) -> Color {
    if i == 0 {
        Color::White
    } else if i == 1 {
        Color::Red
    } else if i == 2 {
        Color::Yellow
    } else if i == 3 {
        Color::Green
    } else if i == 4 {
        Color::Blue
    } else if i == 5 {
        Color::Cyan
    } else if i == 6 {
        Color::Magenta
    } else if i == 7 {
        Color::DarkGrey
    } else if i == 8 {
        Color::Black
    } else if i == 9 {
        Color::Grey
    } else {
        Color::White
    }
}

/// Indexing a color's position in the fixed color order gives the color
/// back, and the position lies within the order.
pub proof fn lemma_color_index_roundtrip(c: Color)
    ensures
        0 <= spec_color_index(c) < COLOR_COUNT as int,
        spec_color_of_index(spec_color_index(c)) == c,
{
}

/// Within the fixed color order, distinct positions carry distinct
/// colors.
pub proof fn lemma_color_of_index_injective(i: int, j: int)
    requires
        0 <= i < COLOR_COUNT as int,
        0 <= j < COLOR_COUNT as int,
        spec_color_of_index(i) == spec_color_of_index(j),
    ensures
        i == j,
{
}

/// The color at a position of the fixed color order.
pub fn color_of_index(i: u8) -> (c: Color)
    requires
        i < COLOR_COUNT,
    ensures
        c == spec_color_of_index(i as int),
        spec_color_index(c) == i as int,
{
    match i {
        0 => Color::White,
        1 => Color::Red,
        2 => Color::Yellow,
        3 => Color::Green,
        4 => Color::Blue,
        5 => Color::Cyan,
        6 => Color::Magenta,
        7 => Color::DarkGrey,
        8 => Color::Black,
        _ => Color::Grey,
    }
}

} // verus!
