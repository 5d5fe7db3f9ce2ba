use vstd::prelude::*;

verus! {

/// Terminal palette tag. A block's color doubles as the value stored in the
/// grid cells it settles into, so every color a block can wear has a nonzero
/// code; code 0 is reserved for an empty cell.
#[allow(non_camel_case_types)]
#[derive(Copy, Clone, Debug, PartialEq, Eq, Structural)]
pub enum Color {
    BLACK,
    RED,
    GREEN,
    YELLOW,
    BLUE,
    MAGENTA,
    CYAN,
    WHITE,
    UNKNOWN,
    DEFAULT,
}

impl Color {
    /// The numeric tag written into occupied grid cells and used by a
    /// renderer to pick the palette entry.
    pub open spec fn spec_code(self) -> u8 {
        match self {
            Color::BLACK => 0,
            Color::RED => 1,
            Color::GREEN => 2,
            Color::YELLOW => 3,
            Color::BLUE => 4,
            Color::MAGENTA => 5,
            Color::CYAN => 6,
            Color::WHITE => 7,
            Color::UNKNOWN => 8,
            Color::DEFAULT => 9,
        }
    }

    pub fn code(self) -> (r: u8)
        ensures
            r == self.spec_code(),
    {
        match self {
            Color::BLACK => 0,
            Color::RED => 1,
            Color::GREEN => 2,
            Color::YELLOW => 3,
            Color::BLUE => 4,
            Color::MAGENTA => 5,
            Color::CYAN => 6,
            Color::WHITE => 7,
            Color::UNKNOWN => 8,
            Color::DEFAULT => 9,
        }
    }
}

} // verus!
