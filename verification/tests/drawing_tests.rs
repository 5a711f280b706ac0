use epd_watch::display::layers::Anchor;
use epd_watch::display::panel::PanelOp;
use epd_watch::display::shape::ArrowDir;
use epd_watch::display::Display;
use epd_watch::io::text::td_string;
use epd_watch::io::{alarm2_needed, rtc_flags_to_clear, DateTime, Event};
use epd_watch::pages::snake::GameState;
use epd_watch::pages::{Page, Pages};
use epd_watch::shared_data::{SharedData, StopwatchState};

fn frame_of(d: &mut Display) -> Vec<u8> {
    let ops = d.update();
    for k in 0..ops.len() {
        if let PanelOp::Command(0x13) = ops[k] {
            if let PanelOp::Data(bytes) = &ops[k + 1] {
                return bytes.clone();
            }
        }
    }
    panic!("no frame in the refresh sequence");
}

fn at(hour: u32, minute: u32) -> DateTime {
    DateTime { year: 2025, month: 3, day: 19, hour, minute, second: 0 }
}

#[test]
fn stopwatch_times() {
    assert_eq!(td_string(0), "00:00");
    assert_eq!(td_string(90), "01:30");
    assert_eq!(td_string(3601), "60:01");
    assert_eq!(td_string(6000), "100:00");
    assert_eq!(td_string(-5), "00:00");
}

#[test]
fn anchored_text() {
    let mut a = Display::new();
    a.text_at(b"set time", 100, 88, 5, Anchor::Center);
    let mut b = Display::new();
    // 31 columns at scale 5 centred on column 100
    b.text("set time", 23, 88, 5);
    assert_eq!(frame_of(&mut a), frame_of(&mut b));

    let mut a = Display::new();
    a.text_at(b"exit", 195, 85, 3, Anchor::Right);
    let mut b = Display::new();
    b.text("exit", 195 - 15 * 3, 85, 3);
    assert_eq!(frame_of(&mut a), frame_of(&mut b));

    let mut a = Display::new();
    a.text_at(b"mon", 12, 50, 4, Anchor::Left);
    let mut b = Display::new();
    b.text("mon", 12, 50, 4);
    assert_eq!(frame_of(&mut a), frame_of(&mut b));
}

#[test]
fn anchored_text_off_the_panel_draws_nothing() {
    let mut a = Display::new();
    a.text_at(b"stopwatch", 10, 88, 5, Anchor::Center);
    a.text_at(b"", 10, 88, 5, Anchor::Left);
    a.text_at(b"1", 0, 190, 5, Anchor::Left);
    assert!(frame_of(&mut a).iter().all(|b| *b == 0xff));
}

#[test]
fn menu_page_shows_its_name() {
    let d = SharedData::new();
    let mut a = Display::new();
    Pages::draw_page(Page::MenuSettings, &d, &at(8, 30), &mut a);
    let mut b = Display::new();
    b.text("set time", 23, 88, 5);
    assert_eq!(frame_of(&mut a), frame_of(&mut b));
}

#[test]
fn time_page() {
    let d = SharedData::new();
    let mut a = Display::new();
    let _ = a.init();
    Pages::draw_page(Page::MenuTime, &d, &at(12, 30), &mut a);
    // "12:30" is 15 columns wide, "19 mar" 21: the date row spans 15 * 4 + 21 * 4 + 16 = 160,
    // more than the time's 150, so the day and the date stand 80 columns from the middle
    let mut b = Display::new();
    b.text("12:30", 100 - 75, 75, 10);
    b.text("wed", 100 - 80, 50, 4);
    b.text("19 mar", 100 + 80 - 84, 50, 4);
    assert_eq!(frame_of(&mut a), frame_of(&mut b));
}

#[test]
fn time_page_asks_for_a_clean_refresh_on_the_hour() {
    let d = SharedData::new();
    let mut a = Display::new();
    let _ = a.init();
    let _ = a.sleep();
    Pages::draw_page(Page::MenuTime, &d, &at(13, 0), &mut a);
    match &a.init()[2] {
        PanelOp::Data(first) => assert_eq!(first[0], 0xdf),
        _ => panic!("start-up without panel settings"),
    }
    let mut b = Display::new();
    let _ = b.init();
    let _ = b.sleep();
    Pages::draw_page(Page::MenuTime, &d, &at(13, 1), &mut b);
    match &b.init()[2] {
        PanelOp::Data(first) => assert_eq!(first[0], 0xff),
        _ => panic!("start-up without panel settings"),
    }
}

#[test]
fn setting_page() {
    let mut d = SharedData::new();
    d.year = 2031;
    let mut a = Display::new();
    Pages::draw_page(Page::PgDtsetYear, &d, &at(8, 30), &mut a);
    let mut b = Display::new();
    b.text_at(b"set year", 100, 5, 5, Anchor::Center);
    b.text_at(b"+", 195, 25, 5, Anchor::Right);
    b.text_at(b"-", 195, 150, 5, Anchor::Right);
    b.text_at(b"2031", 100, 70, 6, Anchor::Center);
    assert_eq!(frame_of(&mut a), frame_of(&mut b));
}

#[test]
fn stopwatch_page_shows_the_running_time_and_laps() {
    let mut d = SharedData::new();
    d.stopwatch_state = StopwatchState::Started;
    d.time_start = at(8, 0);
    d.laps = [75, 0, 0, 0];
    let mut a = Display::new();
    Pages::draw_page(Page::PgStopwatch, &d, &at(8, 2), &mut a);
    let mut b = Display::new();
    b.rect(10, 40, 130, 2);
    b.text_at(b"02:00", 70, 10, 5, Anchor::Center);
    b.text_at(b"stop", 195, 35, 3, Anchor::Right);
    b.text_at(b"exit", 195, 85, 3, Anchor::Right);
    b.text_at(b"lap", 195, 135, 3, Anchor::Right);
    b.text_at(b"01:15", 70, 52, 5, Anchor::Center);
    b.text_at(b"00:00", 70, 87, 5, Anchor::Center);
    b.text_at(b"00:00", 70, 122, 5, Anchor::Center);
    b.text_at(b"00:00", 70, 157, 5, Anchor::Center);
    assert_eq!(frame_of(&mut a), frame_of(&mut b));
}

#[test]
fn ignored_event_redraws_the_page() {
    let mut p = Pages::new();
    let mut d = SharedData::new();
    let mut a = Display::new();
    p.step_and_draw(Event::BtnDown, &mut d, &at(9, 0), &mut a);
    let _ = a.update();
    let req = p.step_and_draw(Event::NoEvent, &mut d, &at(9, 0), &mut a);
    assert_eq!(req, epd_watch::pages::core_pages::IoRequest::Nothing);
    let mut b = Display::new();
    Pages::draw_page(Page::MenuSettings, &d, &at(9, 0), &mut b);
    assert_eq!(frame_of(&mut a), frame_of(&mut b));
}

#[test]
fn snake_menu_and_game_drawing() {
    let mut state = GameState::new();
    let mut a = Display::new();
    Pages::draw_menu(&state, &mut a);
    let mut b = Display::new();
    b.rect(10, 25, 150, 1);
    b.rect(10, 175, 150, 1);
    b.rect(10, 25, 1, 150);
    b.rect(160, 25, 1, 150);
    b.arrow(175, 35, 9, ArrowDir::Up);
    b.arrow(175, 160, 9, ArrowDir::Down);
    b.text_at(b"play", 140, 65, 5, Anchor::Right);
    b.text_at(b"exit", 140, 110, 5, Anchor::Right);
    b.arrow(145, 68, 9, ArrowDir::Left);
    assert_eq!(frame_of(&mut a), frame_of(&mut b));

    state.menu_active = false;
    Pages::draw_game(&state, &mut a);
    b.rect(9, 24, 152, 1);
    b.rect(9, 176, 152, 1);
    b.rect(9, 24, 1, 152);
    b.rect(161, 24, 1, 153);
    b.arrow(175, 25, 10, ArrowDir::Down);
    b.arrow(175, 150, 10, ArrowDir::Up);
    // the apple at cell 55, the snake's cells 190 and 191 joined
    b.rect(113, 58, 4, 4);
    b.rect(112, 147, 8, 6);
    b.rect(120, 147, 8, 6);
    assert_eq!(frame_of(&mut a), frame_of(&mut b));

    state.game_lost = true;
    Pages::draw_game(&state, &mut a);
    b.rect(9, 24, 152, 1);
    b.rect(9, 176, 152, 1);
    b.rect(9, 24, 1, 152);
    b.rect(161, 24, 1, 153);
    b.text_at(b"GAME", 85, 55, 5, Anchor::Center);
    b.text_at(b"OVER", 85, 85, 5, Anchor::Center);
    assert_eq!(frame_of(&mut a), frame_of(&mut b));
}

#[test]
fn clock_flags_to_read_and_clear() {
    assert!(!alarm2_needed(Some(true)));
    assert!(alarm2_needed(Some(false)));
    assert!(alarm2_needed(None));
    assert_eq!(rtc_flags_to_clear(Some(true), None), (true, false));
    assert_eq!(rtc_flags_to_clear(Some(true), Some(true)), (true, false));
    assert_eq!(rtc_flags_to_clear(Some(false), Some(true)), (false, true));
    assert_eq!(rtc_flags_to_clear(None, Some(true)), (false, true));
    assert_eq!(rtc_flags_to_clear(None, Some(false)), (false, false));
}
