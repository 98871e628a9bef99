use seglcd::frame::Buff;
use seglcd::scroll::{next_offset, show_window, WINDOW};

const MESSAGE: &str = "  rbaron-net   ";

#[test]
fn window_is_three_characters() {
    assert_eq!(WINDOW, 3);
}

#[test]
fn next_offset_moves_right_by_one() {
    assert_eq!(next_offset(0, 15), 1);
    assert_eq!(next_offset(1, 15), 2);
    assert_eq!(next_offset(10, 15), 11);
}

#[test]
fn next_offset_wraps_before_the_last_window() {
    assert_eq!(next_offset(11, 15), 0);
    assert_eq!(next_offset(0, 4), 0);
    assert_eq!(next_offset(0, 5), 1);
    assert_eq!(next_offset(1, 5), 0);
}

#[test]
fn next_offset_cycles_through_every_start() {
    let len = MESSAGE.chars().count();
    let mut pos = 0;
    let mut seen = Vec::new();
    for _ in 0..len - WINDOW {
        seen.push(pos);
        pos = next_offset(pos, len);
    }
    assert_eq!(seen, (0..12).collect::<Vec<usize>>());
    assert_eq!(pos, 0);
}

#[test]
fn show_window_writes_three_cells() {
    let mut buff = Buff::new();
    show_window(&mut buff, "123", 0);
    assert_eq!(buff.data, [10, 25, 31, 5]);
}

#[test]
fn show_window_is_three_set_chars() {
    let chars: Vec<char> = MESSAGE.chars().collect();
    for pos in 0..=MESSAGE.len() - WINDOW {
        let mut shown = Buff { data: [0x3f, 0x00, 0x2a, 0x15] };
        let mut expected = shown;
        show_window(&mut shown, MESSAGE, pos);
        expected.set_char(0, chars[pos]);
        expected.set_char(1, chars[pos + 1]);
        expected.set_char(2, chars[pos + 2]);
        assert_eq!(shown, expected);
    }
}

#[test]
fn show_window_replaces_the_previous_window() {
    let mut buff = Buff::new();
    show_window(&mut buff, MESSAGE, 2);
    let mut fresh = Buff::new();
    show_window(&mut fresh, MESSAGE, 9);
    show_window(&mut buff, MESSAGE, 9);
    assert_eq!(buff, fresh);
}

#[test]
fn show_window_counts_characters() {
    let mut buff = Buff::new();
    show_window(&mut buff, "é-1-ü", 1);
    let mut expected = Buff::new();
    expected.set_char(0, '-');
    expected.set_char(1, '1');
    expected.set_char(2, '-');
    assert_eq!(buff, expected);
}

#[test]
fn show_window_of_blanks_clears_the_cells() {
    let mut buff = Buff::new();
    show_window(&mut buff, "888", 0);
    show_window(&mut buff, MESSAGE, 12);
    assert_eq!(buff.data, [0, 0, 0, 0]);
}
