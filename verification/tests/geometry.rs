use seglcd::segment::{Seg, COM_LINES, DIGITS, PINS_PER_DIGIT};

const ALL: [Seg; 7] = [Seg::A, Seg::B, Seg::C, Seg::D, Seg::E, Seg::F, Seg::G];

#[test]
fn layout_constants() {
    assert_eq!(COM_LINES, 4);
    assert_eq!(DIGITS, 3);
    assert_eq!(PINS_PER_DIGIT, 2);
}

#[test]
fn pattern_bit_of_each_segment() {
    let bits: Vec<u8> = ALL.iter().map(|s| s.bit()).collect();
    assert_eq!(bits, vec![0, 1, 2, 3, 4, 5, 6]);
}

#[test]
fn com_line_of_each_segment() {
    let coms: Vec<usize> = ALL.iter().map(|s| s.com()).collect();
    assert_eq!(coms, vec![3, 2, 1, 0, 1, 3, 2]);
}

#[test]
fn pin_offset_of_each_segment() {
    let offsets: Vec<usize> = ALL.iter().map(|s| s.pin_offset()).collect();
    assert_eq!(offsets, vec![0, 0, 0, 1, 1, 1, 1]);
}

#[test]
fn pin_index_packs_digits_in_reverse() {
    assert_eq!(Seg::A.pin_index(0), 4);
    assert_eq!(Seg::A.pin_index(1), 2);
    assert_eq!(Seg::A.pin_index(2), 0);
    assert_eq!(Seg::D.pin_index(0), 5);
    assert_eq!(Seg::D.pin_index(1), 3);
    assert_eq!(Seg::D.pin_index(2), 1);
    assert_eq!(Seg::G.pin_index(0), 5);
    assert_eq!(Seg::C.pin_index(2), 0);
}

#[test]
fn pin_index_follows_the_formula() {
    for seg in ALL {
        for pos in 0..DIGITS {
            let expected = ((2 - pos) as usize) * 2 + seg.pin_offset();
            assert_eq!(seg.pin_index(pos), expected);
            assert!(seg.pin_index(pos) < 6);
        }
    }
}

#[test]
fn pin_index_is_a_function_of_its_arguments() {
    for seg in ALL {
        for pos in 0..DIGITS {
            assert_eq!(seg.pin_index(pos), seg.pin_index(pos));
        }
    }
}

#[test]
fn no_two_cells_collide() {
    let mut seen: Vec<(usize, usize)> = Vec::new();
    for seg in ALL {
        for pos in 0..DIGITS {
            let cell = (seg.com(), seg.pin_index(pos));
            assert!(!seen.contains(&cell), "{:?} at {} collides", seg, pos);
            seen.push(cell);
        }
    }
    assert_eq!(seen.len(), 21);
}

#[test]
fn segments_compare_by_label() {
    assert_eq!(Seg::A, Seg::A);
    assert_ne!(Seg::A, Seg::B);
    let copy = Seg::G;
    assert_eq!(copy, Seg::G);
}
