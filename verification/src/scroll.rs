//! Scrolling a text through the digit cells: which window of the text a
//! frame shows, and where the window goes next.

use vstd::arithmetic::div_mod::{lemma_mod_self_0, lemma_small_mod};
use vstd::prelude::*;
use vstd::string::StrSliceExecFns;
use crate::frame::{with_pattern, Buff};
use crate::glyph::glyph_segments;
use crate::segment::Cell;

verus! {

/// Number of characters that the display shows at a time.
pub const WINDOW: usize = 3;

/// The frame `frame` after its three digit cells are made to show the
/// characters `c0`, `c1` and `c2`, from left to right.
pub open spec fn with_chars(frame: Set<Cell>, c0: char, c1: char, c2: char) -> Set<Cell> {
    with_pattern(
        with_pattern(with_pattern(frame, 0, glyph_segments(c0)), 1, glyph_segments(c1)),
        2,
        glyph_segments(c2),
    )
}

/// The window start that follows `pos` in a text of `len` characters. The
/// start moves right by one character and returns to the left end of the
/// text instead of reaching the last window.
pub open spec fn spec_next_offset(pos: int, len: int) -> int
    recommends
        len > WINDOW,
{
    (pos + 1) % (len - WINDOW)
}

/// Writes the three characters of `text` from `pos` on into the three digit
/// cells of `buff`. The window has to lie within the text, and its end has to
/// be a representable index.
pub fn show_window(buff: &mut Buff, text: &str, pos: usize)
    requires
        pos + WINDOW <= text@.len(),
        pos + WINDOW <= usize::MAX,
    ensures
        final(buff)@ == with_chars(
            old(buff)@,
            text@[pos as int],
            text@[pos + 1],
            text@[pos + 2],
        ),
{
    buff.set_char(0, text.get_char(pos));
    buff.set_char(1, text.get_char(pos + 1));
    buff.set_char(2, text.get_char(pos + 2));
}

/// The window start that follows `pos` in a text of `len` characters.
pub fn next_offset(pos: usize, len: usize) -> (r: usize)
    requires
        len > WINDOW,
        pos < len - WINDOW,
    ensures
        r == spec_next_offset(pos as int, len as int),
        r < len - WINDOW,
        r == if pos + 1 == len - WINDOW { 0 } else { pos + 1 },
{
    proof {
        let m = len - WINDOW;
        if pos + 1 == m {
            lemma_mod_self_0(m);
        } else {
            lemma_small_mod((pos + 1) as nat, m as nat);
        }
    }
    (pos + 1) % (len - WINDOW)
}

} // verus!
