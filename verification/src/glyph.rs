//! The glyph table: which segments render each supported character.

use vstd::prelude::*;
use crate::pattern::Patt;
use crate::segment::Seg;

verus! {

/// Whether the table has a glyph for `c`: the decimal digits, the letters
/// A to F, N, O, R and T in either case, and the dash.
pub open spec fn supported(c: char) -> bool {
    ||| '0' <= c <= '9'
    ||| 'A' <= c <= 'F'
    ||| 'a' <= c <= 'f'
    ||| c == 'N' || c == 'n'
    ||| c == 'O' || c == 'o'
    ||| c == 'R' || c == 'r'
    ||| c == 'T' || c == 't'
    ||| c == '-'
}

/// The segments that render `c`; none for a character without a glyph.
pub open spec fn glyph_segments(c: char) -> Set<Seg> {
    match c {
        '0' | 'O' | 'o' => set![Seg::A, Seg::B, Seg::C, Seg::D, Seg::E, Seg::F],
        '1' => set![Seg::B, Seg::C],
        '2' => set![Seg::A, Seg::B, Seg::D, Seg::E, Seg::G],
        '3' => set![Seg::A, Seg::B, Seg::C, Seg::D, Seg::G],
        '4' => set![Seg::B, Seg::C, Seg::F, Seg::G],
        '5' => set![Seg::A, Seg::C, Seg::D, Seg::F, Seg::G],
        '6' => set![Seg::A, Seg::C, Seg::D, Seg::E, Seg::F, Seg::G],
        '7' => set![Seg::A, Seg::B, Seg::C],
        '8' => set![Seg::A, Seg::B, Seg::C, Seg::D, Seg::E, Seg::F, Seg::G],
        '9' => set![Seg::A, Seg::B, Seg::C, Seg::D, Seg::F, Seg::G],
        'A' | 'a' => set![Seg::A, Seg::B, Seg::C, Seg::E, Seg::F, Seg::G],
        'B' | 'b' => set![Seg::C, Seg::D, Seg::E, Seg::F, Seg::G],
        'C' | 'c' => set![Seg::A, Seg::D, Seg::E, Seg::F],
        'D' | 'd' => set![Seg::B, Seg::C, Seg::D, Seg::E, Seg::G],
        'E' | 'e' => set![Seg::A, Seg::D, Seg::E, Seg::F, Seg::G],
        'F' | 'f' => set![Seg::A, Seg::E, Seg::F, Seg::G],
        'N' | 'n' => set![Seg::C, Seg::E, Seg::G],
        'R' | 'r' => set![Seg::E, Seg::G],
        'T' | 't' => set![Seg::D, Seg::E, Seg::F, Seg::G],
        '-' => set![Seg::G],
        _ => Set::empty(),
    }
}

/// The pattern that renders `c`. Every character has one: a character
/// without a glyph gets the blank pattern.
pub fn get_char_pattern(c: char) -> (r: Patt)
    ensures
        r@ == glyph_segments(c),
        r.wf(),
        !supported(c) ==> r@ == Set::<Seg>::empty() && r.spec_bits() == 0,
{
    let r = match c {
        '0' | 'O' | 'o' => Patt::from_segments(&[Seg::A, Seg::B, Seg::C, Seg::D, Seg::E, Seg::F]),
        '1' => Patt::from_segments(&[Seg::B, Seg::C]),
        '2' => Patt::from_segments(&[Seg::A, Seg::B, Seg::D, Seg::E, Seg::G]),
        '3' => Patt::from_segments(&[Seg::A, Seg::B, Seg::C, Seg::D, Seg::G]),
        '4' => Patt::from_segments(&[Seg::B, Seg::C, Seg::F, Seg::G]),
        '5' => Patt::from_segments(&[Seg::A, Seg::C, Seg::D, Seg::F, Seg::G]),
        '6' => Patt::from_segments(&[Seg::A, Seg::C, Seg::D, Seg::E, Seg::F, Seg::G]),
        '7' => Patt::from_segments(&[Seg::A, Seg::B, Seg::C]),
        '8' => Patt::from_segments(&[Seg::A, Seg::B, Seg::C, Seg::D, Seg::E, Seg::F, Seg::G]),
        '9' => Patt::from_segments(&[Seg::A, Seg::B, Seg::C, Seg::D, Seg::F, Seg::G]),
        'A' | 'a' => Patt::from_segments(&[Seg::A, Seg::B, Seg::C, Seg::E, Seg::F, Seg::G]),
        'B' | 'b' => Patt::from_segments(&[Seg::C, Seg::D, Seg::E, Seg::F, Seg::G]),
        'C' | 'c' => Patt::from_segments(&[Seg::A, Seg::D, Seg::E, Seg::F]),
        'D' | 'd' => Patt::from_segments(&[Seg::B, Seg::C, Seg::D, Seg::E, Seg::G]),
        'E' | 'e' => Patt::from_segments(&[Seg::A, Seg::D, Seg::E, Seg::F, Seg::G]),
        'F' | 'f' => Patt::from_segments(&[Seg::A, Seg::E, Seg::F, Seg::G]),
        'N' | 'n' => Patt::from_segments(&[Seg::C, Seg::E, Seg::G]),
        'R' | 'r' => Patt::from_segments(&[Seg::E, Seg::G]),
        'T' | 't' => Patt::from_segments(&[Seg::D, Seg::E, Seg::F, Seg::G]),
        '-' => Patt::from_segments(&[Seg::G]),
        _ => Patt::from_segments(&[]),
    };
    proof {
        assert(r@ =~= glyph_segments(c));
        r.lemma_bits();
    }
    r
}

/// The characters without a glyph are exactly those that render blank.
pub proof fn lemma_blank_iff_unsupported(c: char)
    ensures
        !supported(c) <==> glyph_segments(c) == Set::<Seg>::empty(),
{
    if supported(c) {
        assert(glyph_segments(c).contains(Seg::C) || glyph_segments(c).contains(Seg::E)
            || glyph_segments(c).contains(Seg::G));
    }
}

/// The upper-case form of an ASCII lower-case letter; any other character
/// itself.
pub open spec fn ascii_upper(c: char) -> char {
    if 'a' <= c <= 'z' {
        ((c as u32) - 32) as char
    } else {
        c
    }
}

/// The table does not tell the two cases of a letter apart.
pub proof fn lemma_case_insensitive(c: char)
    ensures
        glyph_segments(ascii_upper(c)) == glyph_segments(c),
        supported(ascii_upper(c)) == supported(c),
{
}

} // verus!
