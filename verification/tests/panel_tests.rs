use epd_watch::display::panel::PanelOp;
use epd_watch::display::preview::MOSAIC;
use epd_watch::display::Display;

/// The steps as text, one per step, for comparing sequences.
fn steps(ops: &[PanelOp]) -> Vec<String> {
    ops.iter()
        .map(|op| match op {
            PanelOp::Reset => "reset".to_string(),
            PanelOp::Command(c) => format!("cmd {:02x}", c),
            PanelOp::Data(d) if d.len() <= 2 => format!("data {:02x?}", d),
            PanelOp::Data(d) => format!("data of {} bytes", d.len()),
            PanelOp::WaitBusy => "wait busy".to_string(),
            PanelOp::WaitPowerOff => "wait power off".to_string(),
        })
        .collect()
}

fn start_up(first: &str, tables: bool) -> Vec<String> {
    let mut v: Vec<String> = vec![
        "reset", "cmd 00", first, "data [0e]", "cmd 4d", "data [55]", "cmd aa", "data [0f]",
        "cmd e9", "data [02]", "cmd b6", "data [11]", "cmd f3", "data [0a]", "cmd 61",
        "data [c8]", "data [00]", "data [c8]", "cmd 60", "data [00]", "cmd 50", "data [97]",
        "cmd e3", "data [00]",
    ]
    .into_iter()
    .map(|s| s.to_string())
    .collect();
    if tables {
        for s in [
            "cmd 20", "data of 56 bytes", "cmd 21", "data of 42 bytes", "cmd 22",
            "data of 56 bytes", "cmd 23", "data of 56 bytes", "cmd 24", "data of 56 bytes",
        ] {
            v.push(s.to_string());
        }
    }
    v.push("cmd 04".to_string());
    v.push("wait busy".to_string());
    v
}

fn refresh() -> Vec<String> {
    ["cmd 13", "data of 5000 bytes", "cmd 10", "data of 5000 bytes", "cmd 12", "wait busy"]
        .iter()
        .map(|s| s.to_string())
        .collect()
}

#[test]
fn first_start_up_is_clean() {
    let mut d = Display::new();
    assert_eq!(steps(&d.init()), start_up("data [df]", false));
}

#[test]
fn later_start_ups_load_the_waveform_tables() {
    let mut d = Display::new();
    let _ = d.init();
    let _ = d.sleep();
    assert_eq!(steps(&d.init()), start_up("data [ff]", true));
}

#[test]
fn clean_update_asked_again() {
    let mut d = Display::new();
    let _ = d.init();
    let _ = d.sleep();
    d.set_clean_update();
    assert_eq!(steps(&d.init()), start_up("data [df]", false));
}

#[test]
fn sleep_sequence() {
    let mut d = Display::new();
    let _ = d.init();
    assert_eq!(steps(&d.sleep()), vec!["cmd 02", "wait power off", "cmd 07", "data [a5]"]);
}

#[test]
fn update_wakes_a_sleeping_panel_first() {
    let mut d = Display::new();
    let mut expected = start_up("data [df]", false);
    expected.extend(refresh());
    assert_eq!(steps(&d.update()), expected);
    assert_eq!(steps(&d.update()), refresh());
}

#[test]
fn update_sends_the_new_frame_and_the_one_shown_before() {
    let mut d = Display::new();
    d.rect(0, 0, 8, 1);
    let _ = d.update();
    d.rect(8, 0, 8, 1);
    let ops = d.update();
    match (&ops[1], &ops[3]) {
        (PanelOp::Data(new), PanelOp::Data(shown)) => {
            assert_eq!(new[0], 0xff);
            assert_eq!(new[1], 0x00);
            assert_eq!(shown[0], 0x00);
            assert_eq!(shown[1], 0xff);
        }
        _ => panic!("refresh sequence without frames"),
    }
    // the frame drawn next starts white
    let ops = d.update();
    match &ops[1] {
        PanelOp::Data(new) => assert!(new.iter().all(|b| *b == 0xff)),
        _ => panic!("refresh sequence without frames"),
    }
}

#[test]
fn braille_preview_of_a_white_frame() {
    let d = Display::new();
    let out = d.render_braille();
    assert_eq!(out.len(), 50 * 101);
    for r in 0..50 {
        for c in 0..100 {
            assert_eq!(out[r * 101 + c], '\u{28ff}');
        }
        assert_eq!(out[r * 101 + 100], '\n');
    }
}

#[test]
fn braille_cells_show_black_pixels_as_missing_dots() {
    let mut d = Display::new();
    d.rect(0, 0, 2, 4);
    d.rect(2, 0, 1, 1);
    d.rect(5, 3, 1, 1);
    assert_eq!(d.gen_character(0, 0), '\u{2800}');
    assert_eq!(d.gen_character(2, 0), '\u{28fe}');
    assert_eq!(d.gen_character(4, 0), '\u{287f}');
    let out = d.render_braille();
    assert_eq!(out[0], '\u{2800}');
    assert_eq!(out[1], '\u{28fe}');
    assert_eq!(out[2], '\u{287f}');
    assert_eq!(out[3], '\u{28ff}');
}

#[test]
fn mosaic_preview() {
    let mut d = Display::new();
    assert_eq!(d.gen_mosaic_character(0, 0), 63);
    d.rect(1, 1, 1, 1);
    assert_eq!(d.gen_mosaic_character(0, 0), 63 - 4);
    assert_eq!(d.gen_mosaic_character(198, 198), 60);
    let out = d.render_mosaic();
    assert_eq!(out.len(), 67 * 101);
    assert_eq!(out[0], MOSAIC[59]);
    assert_eq!(out[1], '█');
    assert_eq!(MOSAIC[63], '█');
    assert_eq!(out[66 * 101], MOSAIC[60]);
    assert_eq!(out[66 * 101 + 100], '\n');
}

#[test]
fn braille_cell_at_the_right_edge_reads_the_next_row() {
    let mut d = Display::new();
    d.rect(199, 0, 1, 1);
    d.rect(0, 1, 1, 1);
    assert_eq!(d.gen_character(199, 0), '\u{28f6}');
}
