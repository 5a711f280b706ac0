use epd_watch::display::panel::PanelOp;
use epd_watch::display::shape::ArrowDir;
use epd_watch::display::{Display, BUFFSIZE};

/// Sends the frame being drawn and returns it, as `update` hands it to the panel.
fn shown_frame(d: &mut Display) -> Vec<u8> {
    let ops = d.update();
    for k in 0..ops.len() {
        if let PanelOp::Command(0x13) = ops[k] {
            if let PanelOp::Data(bytes) = &ops[k + 1] {
                return bytes.clone();
            }
        }
    }
    panic!("no frame in the refresh sequence");
}

/// The bytes of `frame` that are not white.
fn marked(frame: &[u8]) -> Vec<(usize, u8)> {
    frame.iter().enumerate().filter(|(_, b)| **b != 0xff).map(|(i, b)| (i, *b)).collect()
}

fn black_pixels(frame: &[u8]) -> u32 {
    frame.iter().map(|b| b.count_zeros()).sum()
}

#[test]
fn new_display_is_white() {
    let mut d = Display::new();
    let frame = shown_frame(&mut d);
    assert_eq!(frame.len(), BUFFSIZE);
    assert!(marked(&frame).is_empty());
}

#[test]
fn set_bit_clears_and_sets_one_pixel() {
    let mut d = Display::new();
    d.set_bit(7, 0, false);
    d.set_bit(7, 7, false);
    d.set_bit(9, 3, false);
    d.set_bit(9, 3, true);
    assert_eq!(marked(&shown_frame(&mut d)), vec![(7, 0x7e)]);
}

#[test]
fn get_bit_reads_from_the_most_significant_bit() {
    let mut d = Display::new();
    let arr = [0b1000_0001u8, 0b0100_0000];
    assert!(d.get_bit(&arr, 0, 0));
    assert!(!d.get_bit(&arr, 0, 1));
    assert!(d.get_bit(&arr, 0, 7));
    assert!(d.get_bit(&arr, 1, 1));
    assert!(!d.get_bit(&arr, 1, 0));
}

#[test]
fn narrow_rect_clears_its_pixels() {
    let mut d = Display::new();
    d.rect(3, 2, 4, 2);
    assert_eq!(marked(&shown_frame(&mut d)), vec![(50, 0xe1), (75, 0xe1)]);
}

#[test]
fn wide_rect_clears_whole_bytes() {
    let mut d = Display::new();
    d.rect(4, 10, 20, 1);
    assert_eq!(marked(&shown_frame(&mut d)), vec![(250, 0xf0), (251, 0x00), (252, 0x00)]);
}

#[test]
fn wide_rect_with_ragged_right_edge() {
    let mut d = Display::new();
    d.rect(8, 0, 13, 1);
    assert_eq!(marked(&shown_frame(&mut d)), vec![(1, 0x00), (2, 0x07)]);
}

#[test]
fn rect_off_the_panel_draws_nothing() {
    let mut d = Display::new();
    d.rect(195, 0, 10, 1);
    d.rect(0, 199, 1, 2);
    d.rect(200, 0, 0, 0);
    assert!(marked(&shown_frame(&mut d)).is_empty());
}

#[test]
fn rect_up_to_the_corner() {
    let mut d = Display::new();
    d.rect(192, 199, 8, 1);
    assert_eq!(marked(&shown_frame(&mut d)), vec![(4999, 0x00)]);
}

#[test]
fn arrow_up() {
    let mut d = Display::new();
    d.arrow(10, 20, 3, ArrowDir::Up);
    assert_eq!(marked(&shown_frame(&mut d)), vec![(501, 0xfb), (526, 0xf1), (551, 0xe0)]);
}

#[test]
fn arrow_down() {
    let mut d = Display::new();
    d.arrow(0, 0, 3, ArrowDir::Down);
    assert_eq!(marked(&shown_frame(&mut d)), vec![(0, 0x07), (25, 0x8f), (50, 0xdf)]);
}

#[test]
fn arrow_left() {
    let mut d = Display::new();
    d.arrow(0, 0, 3, ArrowDir::Left);
    assert_eq!(
        marked(&shown_frame(&mut d)),
        vec![(0, 0xdf), (25, 0x9f), (50, 0x1f), (75, 0x9f), (100, 0xdf)]
    );
}

#[test]
fn arrow_right() {
    let mut d = Display::new();
    d.arrow(0, 0, 3, ArrowDir::Right);
    assert_eq!(
        marked(&shown_frame(&mut d)),
        vec![(0, 0x7f), (25, 0x3f), (50, 0x1f), (75, 0x3f), (100, 0x7f)]
    );
}

#[test]
fn arrow_off_the_panel_draws_nothing() {
    let mut d = Display::new();
    d.arrow(200, 0, 3, ArrowDir::Up);
    d.arrow(0, 200, 3, ArrowDir::Up);
    assert!(marked(&shown_frame(&mut d)).is_empty());
}

#[test]
fn arrow_past_the_right_edge_continues_on_the_next_row() {
    let mut d = Display::new();
    d.arrow(198, 0, 2, ArrowDir::Up);
    // row 0: column 200 is column 0 of row 1; row 1: columns 199 to 201
    assert_eq!(marked(&shown_frame(&mut d)), vec![(25, 0x7f), (49, 0xfe), (50, 0x3f)]);
}

#[test]
fn line_short_and_long() {
    let mut d = Display::new();
    d.line(2, 5, 0);
    d.line(6, 30, 1);
    assert_eq!(
        marked(&shown_frame(&mut d)),
        vec![(0, 0xc7), (25, 0xfc), (26, 0x00), (27, 0x00), (28, 0x03)]
    );
}

#[test]
fn line_is_clamped_to_the_panel() {
    let mut d = Display::new();
    d.line(196, 250, 3);
    d.line(0, 8, 200);
    assert_eq!(marked(&shown_frame(&mut d)), vec![(99, 0xf0)]);
}

#[test]
fn glyph_widths() {
    let d = Display::new();
    assert_eq!(d.get_width(b'I'), 1);
    assert_eq!(d.get_width(b':'), 1);
    assert_eq!(d.get_width(b'J'), 2);
    assert_eq!(d.get_width(b'M'), 4);
    assert_eq!(d.get_width(b'm'), 3);
    assert_eq!(d.get_width(b'A'), 3);
}

#[test]
fn glyph_indices() {
    let d = Display::new();
    assert_eq!(d.get_index(b' '), 2);
    assert_eq!(d.get_index(b'A'), 68);
    assert_eq!(d.get_index(b'a'), 68);
    assert_eq!(d.get_index(b'M'), 92);
    assert_eq!(d.get_index(b'N'), 95);
    assert_eq!(d.get_index(b'R'), 104);
    assert_eq!(d.get_index(b'X'), 117);
    assert_eq!(d.get_index(b'`'), 133);
    assert_eq!(d.get_index(b'~'), 0);
    assert_eq!(d.get_index(0), 0);
}

#[test]
fn text_widths() {
    let d = Display::new();
    assert_eq!(d.get_text_width("1"), 1);
    assert_eq!(d.get_text_width("12:30"), 15);
    assert_eq!(d.get_text_width("WM"), 9);
    assert_eq!(d.get_text_width("set time"), 31);
}

#[test]
fn text_single_glyph() {
    let mut d = Display::new();
    d.text("1", 0, 0, 1);
    assert_eq!(
        marked(&shown_frame(&mut d)),
        vec![(0, 127), (25, 127), (50, 127), (75, 127), (100, 127)]
    );
}

#[test]
fn text_scaled_copies_rows_down() {
    let mut d = Display::new();
    d.text("A", 8, 4, 2);
    assert_eq!(
        marked(&shown_frame(&mut d)),
        vec![
            (101, 3), (126, 3), (151, 51), (176, 51), (201, 3), (226, 3), (251, 51), (276, 51),
            (301, 51), (326, 51)
        ]
    );
}

#[test]
fn text_lower_case_uses_upper_case_glyph_at_its_own_width() {
    let mut d = Display::new();
    d.text("m", 0, 0, 1);
    assert_eq!(
        marked(&shown_frame(&mut d)),
        vec![(0, 159), (25, 63), (50, 31), (75, 223), (100, 127)]
    );
}

#[test]
fn text_two_glyphs_at_scale_three() {
    let mut d = Display::new();
    d.text("Hi", 16, 10, 3);
    assert_eq!(
        marked(&shown_frame(&mut d)),
        vec![
            (252, 28), (253, 64), (254, 31), (277, 28), (278, 64), (279, 31), (302, 28), (303, 64),
            (304, 31), (327, 28), (328, 64), (352, 28), (353, 64), (377, 28), (378, 64), (402, 0),
            (403, 127), (427, 0), (428, 127), (452, 0), (453, 127), (477, 28), (478, 127),
            (502, 28), (503, 127), (527, 28), (528, 127), (552, 28), (553, 127), (577, 28),
            (578, 127), (602, 28), (603, 127)
        ]
    );
}

#[test]
fn text_time_at_scale_two() {
    let mut d = Display::new();
    d.text("12:30", 50, 100, 2);
    assert_eq!(
        marked(&shown_frame(&mut d)),
        vec![
            (2506, 200), (2507, 30), (2508, 4), (2509, 15), (2531, 200), (2532, 30), (2533, 4),
            (2534, 15), (2556, 207), (2557, 147), (2558, 228), (2559, 207), (2581, 207),
            (2582, 147), (2583, 228), (2584, 207), (2606, 200), (2607, 30), (2608, 4), (2609, 207),
            (2631, 200), (2632, 30), (2633, 4), (2634, 207), (2656, 201), (2657, 243), (2658, 228),
            (2659, 207), (2681, 201), (2682, 243), (2683, 228), (2684, 207), (2706, 200),
            (2707, 30), (2708, 4), (2709, 15), (2731, 200), (2732, 30), (2733, 4), (2734, 15)
        ]
    );
}

#[test]
fn text_that_does_not_fit_draws_nothing() {
    let mut d = Display::new();
    d.text("WWWW", 190, 0, 1);
    d.text("1", 0, 199, 2);
    d.text("1", 0, 0, 0);
    assert!(marked(&shown_frame(&mut d)).is_empty());
}

#[test]
fn qr_code_dark_modules() {
    let mut d = Display::new();
    epd_watch::pages::Pages::menu_qr(&mut d);
    let frame = shown_frame(&mut d);
    assert_eq!(black_pixels(&frame), 551 * 25);
    assert_eq!(frame[17 * 25 + 2], 0x80);
    assert_eq!(frame[17 * 25 + 3], 0x00);
    assert_eq!(frame[21 * 25 + 2], 0x80);
    assert_eq!(frame[22 * 25 + 2], 0x83);
    assert_eq!(frame[16 * 25 + 2], 0xff);
    assert_eq!(frame[100 * 25 + 10], 0xff);
}

#[test]
fn text_leaves_the_rest_of_the_frame_alone() {
    let mut d = Display::new();
    d.rect(0, 0, 200, 200);
    d.text("W", 3, 7, 2);
    let frame = shown_frame(&mut d);
    // rows 7 to 16, bytes 0 and 1 (columns 3 to 10 at width 8)
    for (i, b) in frame.iter().enumerate() {
        let (row, byte) = (i / 25, i % 25);
        if !(7..17).contains(&row) || byte > 1 {
            assert_eq!(*b, 0x00, "byte {}", i);
        }
    }
    assert_ne!(frame[7 * 25], 0x00);
}
