//! The frame buffer: one bitmask per COM line, updated one digit cell at a
//! time.

use vstd::prelude::*;
use crate::bits::{
    has_bit, lemma_and_not_single_bit, lemma_or_single_bit, lemma_same_bits, lemma_zero_has_no_bit,
    single_bit,
};
use crate::glyph::{get_char_pattern, glyph_segments};
use crate::pattern::Patt;
use crate::segment::{lemma_bit_injective, lemma_cell_injective, Cell, Seg, COM_LINES, DIGITS};

verus! {

/// The bits of a frame that belong to digit cell `pos`: one per segment.
pub open spec fn digit_cells(pos: int) -> Set<Cell> {
    Set::new(|c: Cell| exists|s: Seg| #[trigger] s.cell(pos) == c)
}

/// The bits of a frame that are set when digit cell `pos` shows the
/// segments `segs`.
pub open spec fn lit_cells(pos: int, segs: Set<Seg>) -> Set<Cell> {
    Set::new(|c: Cell| exists|s: Seg| segs.contains(s) && #[trigger] s.cell(pos) == c)
}

/// The frame `frame` after digit cell `pos` is made to show `segs`: the bits
/// of that cell are replaced, every other bit stays. A position that the
/// layout does not address changes nothing.
pub open spec fn with_pattern(frame: Set<Cell>, pos: int, segs: Set<Seg>) -> Set<Cell> {
    if 0 <= pos < DIGITS {
        frame.difference(digit_cells(pos)).union(lit_cells(pos, segs))
    } else {
        frame
    }
}

/// The four COM bitmasks that the display driver transmits.
#[derive(Clone, Copy, Debug, PartialEq, Eq)]
pub struct Buff {
    pub data: [u8; 4],
}

impl View for Buff {
    type V = Set<Cell>;

    /// The bits that are set, each by its COM line and its index within the
    /// bitmask of that line.
    open spec fn view(&self) -> Set<Cell> {
        Set::new(|c: Cell| 0 <= c.0 < COM_LINES && has_bit(self.data[c.0], c.1))
    }
}

impl Buff {
    /// A frame with every bit clear.
    pub fn new() -> (r: Self)
        ensures
            r@ == Set::<Cell>::empty(),
            forall|i: int| 0 <= i < COM_LINES ==> r.data[i] == 0,
    {
        let r = Self { data: [0; 4] };
        proof {
            r.lemma_blank();
        }
        r
    }

    /// Clears every bit of the frame.
    pub fn clear(&mut self)
        ensures
            final(self)@ == Set::<Cell>::empty(),
            forall|i: int| 0 <= i < COM_LINES ==> final(self).data[i] == 0,
    {
        for i in 0..COM_LINES
            invariant
                forall|j: int| 0 <= j < i ==> self.data[j] == 0,
        {
            self.data[i] = 0;
        }
        proof {
            self.lemma_blank();
        }
    }

    /// Makes digit cell `char_pos` show `patt` and leaves the other cells as
    /// they are. A position beyond the last cell is ignored.
    pub fn set_pattern(&mut self, char_pos: u8, patt: &Patt)
        ensures
            final(self)@ == with_pattern(old(self)@, char_pos as int, patt@),
            char_pos >= DIGITS ==> *final(self) == *old(self),
            char_pos < DIGITS ==> forall|s: Seg|
                final(self)@.contains(#[trigger] s.cell(char_pos as int)) == patt@.contains(s),
            forall|c: Cell|
                !digit_cells(char_pos as int).contains(c) ==> final(self)@.contains(c) == old(
                    self,
                )@.contains(c),
            forall|s: Seg, q: int|
                0 <= q < DIGITS && q != char_pos ==> final(self)@.contains(#[trigger] s.cell(q))
                    == old(self)@.contains(s.cell(q)),
    {
        if char_pos >= DIGITS {
            return ;
        }
        let ghost pos = char_pos as int;
        let segs = [Seg::A, Seg::B, Seg::C, Seg::D, Seg::E, Seg::F, Seg::G];
        let mut i: usize = 0;
        while i < 7
            invariant
                i <= 7,
                pos == char_pos,
                0 <= pos < DIGITS,
                forall|k: int| 0 <= k < 7 ==> (#[trigger] segs@[k]).spec_bit() == k,
                forall|k: int|
                    0 <= k < i ==> self@.contains((#[trigger] segs@[k]).cell(pos)) == patt@.contains(
                        segs@[k],
                    ),
                forall|c: Cell|
                    (forall|k: int| 0 <= k < i ==> (#[trigger] segs@[k]).cell(pos) != c)
                        ==> self@.contains(c) == old(self)@.contains(c),
            decreases 7 - i,
        {
            let seg = segs[i];
            let pin = seg.pin_index(char_pos);
            let com = seg.com();
            let ghost before = *self;
            if patt.has_segment(seg) {
                self.data[com] |= 1 << pin;
                proof {
                    Self::lemma_set_cell(before, *self, com as int, pin as u8);
                }
            } else {
                self.data[com] &= !(1 << pin);
                proof {
                    Self::lemma_clear_cell(before, *self, com as int, pin as u8);
                }
            }
            proof {
                assert forall|k: int| 0 <= k < i + 1 implies self@.contains(
                    (#[trigger] segs@[k]).cell(pos),
                ) == patt@.contains(segs@[k]) by {
                    if k < i {
                        lemma_cell_injective(segs@[k], pos, seg, pos);
                    }
                }
            }
            i += 1;
        }
        proof {
            let after = self@;
            let goal = with_pattern(old(self)@, pos, patt@);
            assert forall|c: Cell| after.contains(c) == goal.contains(c) by {
                if digit_cells(pos).contains(c) {
                    let s = choose|s: Seg| #[trigger] s.cell(pos) == c;
                    lemma_bit_injective(s, s);
                    assert(segs@[s.spec_bit()] == s) by {
                        lemma_bit_injective(segs@[s.spec_bit()], s);
                    }
                    assert(after.contains(segs@[s.spec_bit()].cell(pos)) == patt@.contains(s));
                    if lit_cells(pos, patt@).contains(c) {
                        let t = choose|t: Seg| patt@.contains(t) && #[trigger] t.cell(pos) == c;
                        lemma_cell_injective(s, pos, t, pos);
                    }
                } else {
                    assert forall|k: int| 0 <= k < 7 implies (#[trigger] segs@[k]).cell(pos)
                        != c by {
                        if segs@[k].cell(pos) == c {
                            assert(digit_cells(pos).contains(c));
                        }
                    }
                    if lit_cells(pos, patt@).contains(c) {
                        let t = choose|t: Seg| patt@.contains(t) && #[trigger] t.cell(pos) == c;
                        assert(digit_cells(pos).contains(c));
                    }
                }
            }
            assert(after =~= goal);
            lemma_with_pattern(old(self)@, pos, patt@);
        }
    }

    /// Makes digit cell `char_pos` show the glyph of `c`, blank if `c` has
    /// none, and leaves the other cells as they are. A position beyond the
    /// last cell is ignored.
    pub fn set_char(&mut self, char_pos: u8, c: char)
        ensures
            final(self)@ == with_pattern(old(self)@, char_pos as int, glyph_segments(c)),
            char_pos >= DIGITS ==> *final(self) == *old(self),
    {
        let patt = get_char_pattern(c);
        self.set_pattern(char_pos, &patt);
    }

    /// A frame whose bitmasks are all zero has no bit set.
    pub proof fn lemma_blank(self)
        requires
            forall|i: int| 0 <= i < COM_LINES ==> self.data[i] == 0,
        ensures
            self@ == Set::<Cell>::empty(),
    {
        assert forall|c: Cell| !self@.contains(c) by {
            lemma_zero_has_no_bit(c.1);
        }
        assert(self@ =~= Set::<Cell>::empty());
    }

    /// A frame is determined by the bits that are set in it.
    pub proof fn lemma_view_injective(self, other: Buff)
        requires
            self@ == other@,
        ensures
            self == other,
    {
        assert forall|i: int| 0 <= i < COM_LINES implies self.data[i] == other.data[i] by {
            assert forall|b: int| 0 <= b < 8 implies has_bit(self.data[i], b) == has_bit(
                other.data[i],
                b,
            ) by {
                assert(self@.contains((i, b)) == has_bit(self.data[i], b));
                assert(other@.contains((i, b)) == has_bit(other.data[i], b));
            }
            lemma_same_bits(self.data[i], other.data[i]);
        }
        assert(self.data =~= other.data);
    }

    /// Or-ing bit `pin` into the bitmask of line `com` sets that bit of the
    /// frame and no other.
    proof fn lemma_set_cell(before: Buff, after: Buff, com: int, pin: u8)
        requires
            0 <= com < COM_LINES,
            pin < 8,
            after.data@ == before.data@.update(com, before.data[com] | single_bit(pin)),
        ensures
            after@ == before@.insert((com, pin as int)),
    {
        assert forall|c: Cell| after@.contains(c) == before@.insert((com, pin as int)).contains(
            c,
        ) by {
            if 0 <= c.0 < COM_LINES {
                if c.0 == com {
                    lemma_or_single_bit(before.data[com], pin, c.1);
                } else {
                    assert(after.data[c.0] == before.data[c.0]);
                }
            }
        }
        assert(after@ =~= before@.insert((com, pin as int)));
    }

    /// And-ing bit `pin` out of the bitmask of line `com` clears that bit of
    /// the frame and no other.
    proof fn lemma_clear_cell(before: Buff, after: Buff, com: int, pin: u8)
        requires
            0 <= com < COM_LINES,
            pin < 8,
            after.data@ == before.data@.update(com, before.data[com] & !single_bit(pin)),
        ensures
            after@ == before@.remove((com, pin as int)),
    {
        assert forall|c: Cell| after@.contains(c) == before@.remove((com, pin as int)).contains(
            c,
        ) by {
            if 0 <= c.0 < COM_LINES {
                if c.0 == com {
                    lemma_and_not_single_bit(before.data[com], pin, c.1);
                } else {
                    assert(after.data[c.0] == before.data[c.0]);
                }
            }
        }
        assert(after@ =~= before@.remove((com, pin as int)));
    }
}

/// What replacing a digit cell does bit by bit: the segments of the cell
/// show the new pattern, and every bit outside the cell, those of the other
/// cells among them, is as before.
pub proof fn lemma_with_pattern(frame: Set<Cell>, pos: int, segs: Set<Seg>)
    requires
        0 <= pos < DIGITS,
    ensures
        forall|s: Seg|
            with_pattern(frame, pos, segs).contains(#[trigger] s.cell(pos)) == segs.contains(s),
        forall|c: Cell|
            !digit_cells(pos).contains(c) ==> with_pattern(frame, pos, segs).contains(c)
                == frame.contains(c),
        forall|s: Seg, q: int|
            0 <= q < DIGITS && q != pos ==> with_pattern(frame, pos, segs).contains(
                #[trigger] s.cell(q),
            ) == frame.contains(s.cell(q)),
{
    let next = with_pattern(frame, pos, segs);
    assert forall|s: Seg| next.contains(#[trigger] s.cell(pos)) == segs.contains(s) by {
        let c = s.cell(pos);
        assert(digit_cells(pos).contains(c));
        if lit_cells(pos, segs).contains(c) {
            let t = choose|t: Seg| segs.contains(t) && #[trigger] t.cell(pos) == c;
            lemma_cell_injective(s, pos, t, pos);
        }
    }
    assert forall|c: Cell| !digit_cells(pos).contains(c) implies next.contains(c)
        == frame.contains(c) by {
        if lit_cells(pos, segs).contains(c) {
            let t = choose|t: Seg| segs.contains(t) && #[trigger] t.cell(pos) == c;
            assert(digit_cells(pos).contains(c));
        }
    }
    assert forall|s: Seg, q: int| 0 <= q < DIGITS && q != pos implies next.contains(
        #[trigger] s.cell(q),
    ) == frame.contains(s.cell(q)) by {
        let c = s.cell(q);
        if digit_cells(pos).contains(c) {
            let t = choose|t: Seg| #[trigger] t.cell(pos) == c;
            lemma_cell_injective(s, q, t, pos);
        }
    }
}

/// Showing the same segments in the same digit cell twice gives the frame
/// that showing them once gives.
pub proof fn lemma_with_pattern_idempotent(frame: Set<Cell>, pos: int, segs: Set<Seg>)
    ensures
        with_pattern(with_pattern(frame, pos, segs), pos, segs) == with_pattern(frame, pos, segs),
{
    let once = with_pattern(frame, pos, segs);
    assert forall|c: Cell| with_pattern(once, pos, segs).contains(c) == once.contains(c) by {
        lemma_cells_of_digit(c, pos, segs);
    }
    assert(with_pattern(once, pos, segs) =~= once);
}

/// Updates of two different digit cells commute: each touches the bits of
/// its own cell only.
pub proof fn lemma_with_pattern_commutes(
    frame: Set<Cell>,
    pos1: int,
    segs1: Set<Seg>,
    pos2: int,
    segs2: Set<Seg>,
)
    requires
        pos1 != pos2,
    ensures
        with_pattern(with_pattern(frame, pos1, segs1), pos2, segs2) == with_pattern(
            with_pattern(frame, pos2, segs2),
            pos1,
            segs1,
        ),
{
    let left = with_pattern(with_pattern(frame, pos1, segs1), pos2, segs2);
    let right = with_pattern(with_pattern(frame, pos2, segs2), pos1, segs1);
    if 0 <= pos1 < DIGITS && 0 <= pos2 < DIGITS {
        assert forall|c: Cell| left.contains(c) == right.contains(c) by {
            lemma_cells_of_digit(c, pos1, segs1);
            lemma_cells_of_digit(c, pos2, segs2);
            if digit_cells(pos1).contains(c) && digit_cells(pos2).contains(c) {
                let s = choose|s: Seg| #[trigger] s.cell(pos1) == c;
                let t = choose|t: Seg| #[trigger] t.cell(pos2) == c;
                lemma_cell_injective(s, pos1, t, pos2);
            }
        }
    }
    assert(left =~= right);
}

/// Filling the three digit cells of a blank frame sets exactly the bits of
/// the three patterns, each in its own cell.
pub proof fn lemma_fill_blank(segs0: Set<Seg>, segs1: Set<Seg>, segs2: Set<Seg>)
    ensures
        with_pattern(with_pattern(with_pattern(Set::empty(), 0, segs0), 1, segs1), 2, segs2)
            == lit_cells(0, segs0).union(lit_cells(1, segs1)).union(lit_cells(2, segs2)),
{
    let filled = with_pattern(
        with_pattern(with_pattern(Set::empty(), 0, segs0), 1, segs1),
        2,
        segs2,
    );
    let lit = lit_cells(0, segs0).union(lit_cells(1, segs1)).union(lit_cells(2, segs2));
    assert forall|c: Cell| filled.contains(c) == lit.contains(c) by {
        lemma_cells_of_digit(c, 0, segs0);
        lemma_cells_of_digit(c, 1, segs1);
        lemma_cells_of_digit(c, 2, segs2);
        if digit_cells(0).contains(c) {
            let s = choose|s: Seg| #[trigger] s.cell(0) == c;
            if digit_cells(1).contains(c) {
                let t = choose|t: Seg| #[trigger] t.cell(1) == c;
                lemma_cell_injective(s, 0, t, 1);
            }
            if digit_cells(2).contains(c) {
                let t = choose|t: Seg| #[trigger] t.cell(2) == c;
                lemma_cell_injective(s, 0, t, 2);
            }
        }
        if digit_cells(1).contains(c) && digit_cells(2).contains(c) {
            let s = choose|s: Seg| #[trigger] s.cell(1) == c;
            let t = choose|t: Seg| #[trigger] t.cell(2) == c;
            lemma_cell_injective(s, 1, t, 2);
        }
    }
    assert(filled =~= lit);
}

/// A lit bit of a digit cell is a bit of that cell.
proof fn lemma_cells_of_digit(c: Cell, pos: int, segs: Set<Seg>)
    ensures
        lit_cells(pos, segs).contains(c) ==> digit_cells(pos).contains(c),
{
    if lit_cells(pos, segs).contains(c) {
        let t = choose|t: Seg| segs.contains(t) && #[trigger] t.cell(pos) == c;
        assert(t.cell(pos) == c);
    }
}

/// Writing the same character to the same digit cell twice leaves the frame
/// as the first write left it.
pub proof fn lemma_set_char_idempotent(start: Buff, once: Buff, twice: Buff, pos: u8, c: char)
    requires
        once@ == with_pattern(start@, pos as int, glyph_segments(c)),
        twice@ == with_pattern(once@, pos as int, glyph_segments(c)),
    ensures
        twice == once,
{
    lemma_with_pattern_idempotent(start@, pos as int, glyph_segments(c));
    twice.lemma_view_injective(once);
}

/// Writing characters to two different digit cells gives the same frame in
/// either order.
pub proof fn lemma_set_char_order(
    start: Buff,
    mid1: Buff,
    end1: Buff,
    mid2: Buff,
    end2: Buff,
    pos1: u8,
    c1: char,
    pos2: u8,
    c2: char,
)
    requires
        pos1 != pos2,
        mid1@ == with_pattern(start@, pos1 as int, glyph_segments(c1)),
        end1@ == with_pattern(mid1@, pos2 as int, glyph_segments(c2)),
        mid2@ == with_pattern(start@, pos2 as int, glyph_segments(c2)),
        end2@ == with_pattern(mid2@, pos1 as int, glyph_segments(c1)),
    ensures
        end1 == end2,
{
    lemma_with_pattern_commutes(
        start@,
        pos1 as int,
        glyph_segments(c1),
        pos2 as int,
        glyph_segments(c2),
    );
    end1.lemma_view_injective(end2);
}

} // verus!
