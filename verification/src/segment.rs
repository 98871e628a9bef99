//! Segment geometry: where the wiring of the panel puts each segment.

use vstd::prelude::*;

verus! {

/// Number of COM lines of the panel, and of bitmasks in a frame.
pub const COM_LINES: usize = 4;

/// Number of digit cells that the layout addresses.
pub const DIGITS: u8 = 3;

/// Number of segment pins that one digit cell takes on a COM line.
pub const PINS_PER_DIGIT: usize = 2;

/// One of the seven segments of a digit cell, by its classic label.
#[derive(Copy, Clone, Debug, PartialEq, Eq, Structural)]
pub enum Seg {
    A,
    B,
    C,
    D,
    E,
    F,
    G,
}

/// One bit of a frame: a COM line and a bit index within its bitmask.
pub type Cell = (int, int);

impl Seg {
    /// Position of the segment's bit within a pattern.
    pub open spec fn spec_bit(self) -> int {
        match self {
            Seg::A => 0,
            Seg::B => 1,
            Seg::C => 2,
            Seg::D => 3,
            Seg::E => 4,
            Seg::F => 5,
            Seg::G => 6,
        }
    }

    /// COM line that drives the segment.
    pub open spec fn spec_com(self) -> int {
        match self {
            Seg::D => 0,
            Seg::C | Seg::E => 1,
            Seg::B | Seg::G => 2,
            Seg::A | Seg::F => 3,
        }
    }

    /// Which of the two pins of a digit cell the segment sits on.
    pub open spec fn spec_pin_offset(self) -> int {
        match self {
            Seg::A | Seg::B | Seg::C => 0,
            Seg::D | Seg::E | Seg::F | Seg::G => 1,
        }
    }

    /// Bit index of the segment of digit cell `pos` within the bitmask of its
    /// COM line. Cells are packed in reverse: the rightmost cell takes the
    /// lowest bits.
    pub open spec fn spec_pin_index(self, pos: int) -> int
        recommends
            0 <= pos < DIGITS,
    {
        (DIGITS - 1 - pos) * PINS_PER_DIGIT + self.spec_pin_offset()
    }

    /// The bit of a frame that shows this segment of digit cell `pos`.
    pub open spec fn cell(self, pos: int) -> Cell
        recommends
            0 <= pos < DIGITS,
    {
        (self.spec_com(), self.spec_pin_index(pos))
    }

    /// Position of the segment's bit within a pattern.
    pub fn bit(self) -> (r: u8)
        ensures
            r == self.spec_bit(),
            r < 7,
    {
        match self {
            Seg::A => 0,
            Seg::B => 1,
            Seg::C => 2,
            Seg::D => 3,
            Seg::E => 4,
            Seg::F => 5,
            Seg::G => 6,
        }
    }

    /// COM line that drives the segment.
    pub fn com(self) -> (r: usize)
        ensures
            r == self.spec_com(),
            r < COM_LINES,
    {
        match self {
            Seg::A => 3,
            Seg::B => 2,
            Seg::C => 1,
            Seg::D => 0,
            Seg::E => 1,
            Seg::F => 3,
            Seg::G => 2,
        }
    }

    /// Which of the two pins of a digit cell the segment sits on.
    pub fn pin_offset(self) -> (r: usize)
        ensures
            r == self.spec_pin_offset(),
            r < PINS_PER_DIGIT,
    {
        match self {
            Seg::A => 0,
            Seg::B => 0,
            Seg::C => 0,
            Seg::D => 1,
            Seg::E => 1,
            Seg::F => 1,
            Seg::G => 1,
        }
    }

    /// Bit index of the segment of digit cell `pos` within the bitmask of its
    /// COM line.
    pub fn pin_index(self, pos: u8) -> (r: usize)
        requires
            pos < DIGITS,
        ensures
            r == self.spec_pin_index(pos as int),
            r == (2 - pos) * 2 + self.spec_pin_offset(),
            r < DIGITS * PINS_PER_DIGIT,
    {
        ((DIGITS - 1 - pos) as usize) * PINS_PER_DIGIT + self.pin_offset()
    }
}

/// No two segments share a bit of a pattern.
pub proof fn lemma_bit_injective(s1: Seg, s2: Seg)
    ensures
        s1.spec_bit() == s2.spec_bit() <==> s1 == s2,
        0 <= s1.spec_bit() < 7,
{
}

/// The geometry is injective on the cells in use: two (segment, digit
/// position) pairs that land on the same bit of the same COM line are the
/// same pair.
pub proof fn lemma_cell_injective(s1: Seg, pos1: int, s2: Seg, pos2: int)
    requires
        0 <= pos1 < DIGITS,
        0 <= pos2 < DIGITS,
    ensures
        s1.cell(pos1) == s2.cell(pos2) <==> s1 == s2 && pos1 == pos2,
{
}

} // verus!
