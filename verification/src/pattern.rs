//! Patterns: the set of segments that renders one glyph, packed in a byte.

use vstd::arithmetic::power2::pow2;
use vstd::prelude::*;
use crate::bits::{
    has_bit, lemma_and_single_bit, lemma_or_single_bit, lemma_seven_bit_value,
    lemma_zero_has_no_bit,
};
use crate::segment::{lemma_bit_injective, Seg};

verus! {

/// The segments that are lit to render one glyph. Bit `s.spec_bit()` of the
/// byte says whether segment `s` is lit; the eighth bit is never set.
#[derive(Copy, Clone, Debug, PartialEq, Eq, Structural)]
pub struct Patt(u8);

impl View for Patt {
    type V = Set<Seg>;

    closed spec fn view(&self) -> Set<Seg> {
        Set::new(|s: Seg| has_bit(self.0, s.spec_bit()))
    }
}

/// What segment `s` adds to the byte of a pattern that lights `segs`.
pub open spec fn seg_weight(segs: Set<Seg>, s: Seg) -> int {
    if segs.contains(s) {
        pow2(s.spec_bit() as nat) as int
    } else {
        0
    }
}

/// The byte that packs the segment set `segs`: one bit per segment, at the
/// segment's fixed position.
pub open spec fn pack(segs: Set<Seg>) -> int {
    seg_weight(segs, Seg::A) + seg_weight(segs, Seg::B) + seg_weight(segs, Seg::C) + seg_weight(
        segs,
        Seg::D,
    ) + seg_weight(segs, Seg::E) + seg_weight(segs, Seg::F) + seg_weight(segs, Seg::G)
}

impl Patt {
    /// A pattern uses the seven low bits of its byte only.
    #[verifier::type_invariant]
    pub closed spec fn wf(self) -> bool {
        self.0 < 128
    }

    /// The byte of the pattern.
    pub closed spec fn spec_bits(self) -> u8 {
        self.0
    }

    /// The pattern that lights exactly the segments listed, in any order and
    /// with repetitions allowed.
    pub fn from_segments(segments: &[Seg]) -> (r: Self)
        ensures
            r@ == segments@.to_set(),
            r.wf(),
            r.spec_bits() == pack(segments@.to_set()),
    {
        let mut patt: u8 = 0;
        let mut i: usize = 0;
        proof {
            assert forall|s: Seg| !has_bit(0u8, s.spec_bit()) by {
                lemma_zero_has_no_bit(s.spec_bit());
            }
        }
        while i < segments.len()
            invariant
                i <= segments.len(),
                patt < 128,
                forall|s: Seg|
                    has_bit(patt, s.spec_bit()) <==> exists|j: int|
                        0 <= j < i && segments@[j] == s,
            decreases segments.len() - i,
        {
            let seg = segments[i];
            let b = seg.bit();
            let ghost before = patt;
            assert((before | (1u8 << b)) < 128) by (bit_vector)
                requires
                    before < 128,
                    b < 7,
            ;
            patt |= 1 << b;
            proof {
                assert forall|s: Seg|
                    has_bit(patt, s.spec_bit()) <==> exists|j: int|
                        0 <= j < i + 1 && segments@[j] == s by {
                    lemma_or_single_bit(before, b, s.spec_bit());
                    lemma_bit_injective(s, seg);
                    if has_bit(patt, s.spec_bit()) {
                        if s == seg {
                            assert(segments@[i as int] == s);
                        } else {
                            let j = choose|j: int| 0 <= j < i && segments@[j] == s;
                            assert(0 <= j < i + 1 && segments@[j] == s);
                        }
                    }
                }
            }
            i += 1;
        }
        let r = Patt(patt);
        proof {
            assert forall|s: Seg| r@.contains(s) <==> segments@.to_set().contains(s) by {
                if r@.contains(s) {
                    let j = choose|j: int| 0 <= j < i && segments@[j] == s;
                    assert(segments@[j] == s);
                }
            }
            assert(r@ =~= segments@.to_set());
            r.lemma_bits();
        }
        r
    }

    /// Whether the pattern lights segment `seg`.
    pub fn has_segment(&self, seg: Seg) -> (r: bool)
        ensures
            r == self@.contains(seg),
    {
        let b = seg.bit();
        proof {
            lemma_and_single_bit(self.0, b);
        }
        (self.0 & (1 << b)) != 0
    }

    /// The byte of the pattern: bit `s.spec_bit()` is set exactly for the
    /// segments `s` that the pattern lights.
    pub fn bits(&self) -> (r: u8)
        ensures
            r == self.spec_bits(),
            r == pack(self@),
            r < 128,
    {
        proof {
            use_type_invariant(self);
            self.lemma_bits();
        }
        self.0
    }

    /// The byte of a well-formed pattern packs the segments it lights.
    pub proof fn lemma_bits(self)
        requires
            self.wf(),
        ensures
            self.spec_bits() == pack(self@),
            self.spec_bits() < 128,
            forall|s: Seg| has_bit(self.spec_bits(), s.spec_bit()) == self@.contains(s),
    {
        lemma_seven_bit_value(self.0);
    }

    /// Two well-formed patterns that light the same segments are equal.
    pub proof fn lemma_view_injective(self, other: Patt)
        requires
            self.wf(),
            other.wf(),
            self@ == other@,
        ensures
            self == other,
    {
        self.lemma_bits();
        other.lemma_bits();
    }
}

} // verus!
