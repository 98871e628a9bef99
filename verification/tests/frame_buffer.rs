use seglcd::frame::Buff;
use seglcd::glyph::get_char_pattern;
use seglcd::pattern::Patt;
use seglcd::segment::Seg;

const SEGS: [Seg; 7] = [Seg::A, Seg::B, Seg::C, Seg::D, Seg::E, Seg::F, Seg::G];

/// The bits of each COM bitmask that belong to digit cell `pos`.
fn cell_masks(pos: u8) -> [u8; 4] {
    let mut masks = [0u8; 4];
    for seg in SEGS {
        masks[seg.com()] |= 1 << seg.pin_index(pos);
    }
    masks
}

fn is_lit(buff: &Buff, seg: Seg, pos: u8) -> bool {
    buff.data[seg.com()] & (1 << seg.pin_index(pos)) != 0
}

#[test]
fn new_frame_is_blank() {
    assert_eq!(Buff::new().data, [0, 0, 0, 0]);
}

#[test]
fn cell_masks_of_the_layout() {
    assert_eq!(cell_masks(0), [0x20, 0x30, 0x30, 0x30]);
    assert_eq!(cell_masks(1), [0x08, 0x0c, 0x0c, 0x0c]);
    assert_eq!(cell_masks(2), [0x02, 0x03, 0x03, 0x03]);
}

#[test]
fn set_char_one_at_the_left() {
    let mut buff = Buff::new();
    buff.set_char(0, '1');
    assert_eq!(buff.data, [0, 16, 16, 0]);
}

#[test]
fn set_char_eight_in_each_cell() {
    let mut buff = Buff::new();
    buff.set_char(0, '8');
    assert_eq!(buff.data, [0x20, 0x30, 0x30, 0x30]);
    buff.set_char(1, '8');
    assert_eq!(buff.data, [0x28, 0x3c, 0x3c, 0x3c]);
    buff.set_char(2, '8');
    assert_eq!(buff.data, [0x2a, 0x3f, 0x3f, 0x3f]);
}

#[test]
fn set_pattern_shows_each_segment_of_the_pattern() {
    for pos in 0..3u8 {
        for bits in 0..128u32 {
            let listed: Vec<Seg> =
                SEGS.iter().copied().filter(|s| bits & (1 << s.bit()) != 0).collect();
            let patt = Patt::from_segments(&listed);
            let mut buff = Buff { data: [0xa5, 0x5a, 0xff, 0x00] };
            buff.set_pattern(pos, &patt);
            for seg in SEGS {
                assert_eq!(is_lit(&buff, seg, pos), patt.has_segment(seg));
            }
        }
    }
}

#[test]
fn set_pattern_keeps_every_bit_outside_its_cell() {
    let fills: [[u8; 4]; 4] =
        [[0, 0, 0, 0], [0xff, 0xff, 0xff, 0xff], [0xa5, 0x5a, 0x3c, 0xc3], [1, 2, 4, 8]];
    for fill in fills {
        for pos in 0..3u8 {
            let masks = cell_masks(pos);
            for c in ['8', ' ', '1', 'F', '-'] {
                let mut buff = Buff { data: fill };
                buff.set_pattern(pos, &get_char_pattern(c));
                for com in 0..4 {
                    assert_eq!(buff.data[com] & !masks[com], fill[com] & !masks[com]);
                }
            }
        }
    }
}

#[test]
fn set_pattern_keeps_the_other_cells() {
    let mut buff = Buff::new();
    buff.set_char(0, '4');
    buff.set_char(1, 'E');
    buff.set_char(2, '7');
    let before = buff;
    buff.set_pattern(1, &get_char_pattern('2'));
    for seg in SEGS {
        assert_eq!(is_lit(&buff, seg, 0), is_lit(&before, seg, 0));
        assert_eq!(is_lit(&buff, seg, 2), is_lit(&before, seg, 2));
        assert_eq!(is_lit(&buff, seg, 1), get_char_pattern('2').has_segment(seg));
    }
}

#[test]
fn set_pattern_clears_segments_that_the_pattern_lacks() {
    let mut buff = Buff::new();
    buff.set_char(1, '8');
    buff.set_char(1, '1');
    assert_eq!(buff.data, [0, 0x04, 0x04, 0]);
}

#[test]
fn set_pattern_beyond_the_last_cell_is_ignored() {
    let full = get_char_pattern('8');
    for pos in [3u8, 4, 7, 128, 255] {
        let mut buff = Buff { data: [0x12, 0x34, 0x56, 0x78] };
        buff.set_pattern(pos, &full);
        assert_eq!(buff.data, [0x12, 0x34, 0x56, 0x78]);
        let mut blank = Buff::new();
        blank.set_pattern(pos, &full);
        assert_eq!(blank, Buff::new());
    }
}

#[test]
fn set_char_beyond_the_last_cell_is_ignored() {
    let mut buff = Buff::new();
    buff.set_char(0, '5');
    let before = buff;
    buff.set_char(3, '8');
    assert_eq!(buff, before);
    buff.set_char(200, '8');
    assert_eq!(buff, before);
}

#[test]
fn set_char_is_set_pattern_of_the_glyph() {
    for pos in 0..5u8 {
        for c in ['0', '9', 'a', 'T', '-', 'Z', ' '] {
            let mut by_char = Buff { data: [0x15, 0x2a, 0x00, 0x3f] };
            let mut by_pattern = by_char;
            by_char.set_char(pos, c);
            by_pattern.set_pattern(pos, &get_char_pattern(c));
            assert_eq!(by_char, by_pattern);
        }
    }
}

#[test]
fn set_char_twice_is_set_char_once() {
    for pos in 0..4u8 {
        for c in ['0', '3', 'b', 'R', '-', '?'] {
            let mut once = Buff { data: [0x2a, 0x15, 0x33, 0x0c] };
            once.set_char(pos, c);
            let mut twice = once;
            twice.set_char(pos, c);
            assert_eq!(twice, once);
        }
    }
}

#[test]
fn set_char_of_unsupported_character_blanks_the_cell() {
    let mut buff = Buff::new();
    buff.set_char(0, '8');
    buff.set_char(1, '8');
    buff.set_char(2, '8');
    buff.set_char(1, 'Z');
    assert_eq!(buff.data, [0x22, 0x33, 0x33, 0x33]);
}

#[test]
fn one_two_three_round_trip() {
    let mut buff = Buff::new();
    buff.set_char(0, '1');
    buff.set_char(1, '2');
    buff.set_char(2, '3');
    assert_eq!(buff.data, [10, 25, 31, 5]);

    let mut direct = Buff::new();
    direct.set_pattern(0, &Patt::from_segments(&[Seg::B, Seg::C]));
    direct.set_pattern(1, &Patt::from_segments(&[Seg::A, Seg::B, Seg::D, Seg::E, Seg::G]));
    direct.set_pattern(2, &Patt::from_segments(&[Seg::A, Seg::B, Seg::C, Seg::D, Seg::G]));
    assert_eq!(direct, buff);
}

#[test]
fn one_two_three_in_any_order() {
    let writes = [(0u8, '1'), (1u8, '2'), (2u8, '3')];
    let orders = [[0, 1, 2], [0, 2, 1], [1, 0, 2], [1, 2, 0], [2, 0, 1], [2, 1, 0]];
    for order in orders {
        let mut buff = Buff::new();
        for i in order {
            let (pos, c) = writes[i];
            buff.set_char(pos, c);
        }
        assert_eq!(buff.data, [10, 25, 31, 5]);
    }
}

#[test]
fn writes_to_two_cells_commute() {
    let mut first = Buff { data: [0xff, 0x00, 0xa5, 0x5a] };
    let mut second = first;
    first.set_char(0, 'A');
    first.set_char(2, 'F');
    second.set_char(2, 'F');
    second.set_char(0, 'A');
    assert_eq!(first, second);
}

#[test]
fn clear_after_writes_blanks_the_frame() {
    let mut buff = Buff::new();
    for (pos, c) in [(0u8, '1'), (1, '2'), (2, '3'), (0, '8'), (2, '-'), (1, 'Z')] {
        buff.set_char(pos, c);
    }
    assert_ne!(buff.data, [0, 0, 0, 0]);
    buff.clear();
    assert_eq!(buff.data, [0, 0, 0, 0]);
    assert_eq!(buff, Buff::new());
}

#[test]
fn clear_blanks_every_bit() {
    let mut buff = Buff { data: [0xff, 0xff, 0xff, 0xff] };
    buff.clear();
    assert_eq!(buff.data, [0, 0, 0, 0]);
    buff.clear();
    assert_eq!(buff.data, [0, 0, 0, 0]);
}
