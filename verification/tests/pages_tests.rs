use epd_watch::io::{DateTime, Event};
use epd_watch::pages::core_pages::IoRequest;
use epd_watch::pages::state::PageState;
use epd_watch::pages::{Page, Pages};
use epd_watch::shared_data::{AlarmMode, SharedData, StopwatchState};

fn noon() -> DateTime {
    DateTime { year: 2025, month: 1, day: 1, hour: 12, minute: 0, second: 0 }
}

fn at(hour: u32, minute: u32, second: u32) -> DateTime {
    DateTime { year: 2025, month: 1, day: 1, hour, minute, second }
}

/// Feeds the events to the pages, returning the requests they made.
fn feed(p: &mut Pages, d: &mut SharedData, evs: &[Event]) -> Vec<IoRequest> {
    evs.iter().map(|ev| p.update_page(*ev, d, &noon())).collect()
}

const MENUS: [PageState; 6] = [
    PageState::MenuTime,
    PageState::MenuSettings,
    PageState::MenuAlarm,
    PageState::MenuStopwatch,
    PageState::MenuSnake,
    PageState::MenuVideo,
];

#[test]
fn start_up_values() {
    let p = Pages::new();
    assert_eq!(p.curr_state(), PageState::MenuTime);
    assert_eq!(p.curr_page(), Page::MenuTime);
    let d = SharedData::new();
    assert!(d.update);
    assert_eq!((d.year, d.month, d.day, d.hour, d.minute), (2025, 1, 1, 12, 0));
    assert_eq!(d.mode, AlarmMode::Off);
    assert_eq!((d.alarm_dow, d.alarm_hour, d.alarm_minute), (0, 0, 0));
    assert_eq!(d.stopwatch_state, StopwatchState::Stopped);
    assert_eq!(d.laps, [0, 0, 0, 0]);
    assert_eq!(d.lap_index, 0);
    assert_eq!(d.time_start, noon());
}

#[test]
fn down_walks_through_the_menus() {
    let mut p = Pages::new();
    let mut d = SharedData::new();
    for k in 1..=6 {
        p.update_page(Event::BtnDown, &mut d, &noon());
        assert_eq!(p.curr_state(), MENUS[k % 6]);
    }
}

#[test]
fn up_walks_back_except_from_the_video_menu() {
    let mut p = Pages::new();
    let mut d = SharedData::new();
    p.update_page(Event::BtnUp, &mut d, &noon());
    assert_eq!(p.curr_state(), PageState::MenuVideo);
    // up from the video menu skips the snake menu
    p.update_page(Event::BtnUp, &mut d, &noon());
    assert_eq!(p.curr_state(), PageState::MenuStopwatch);
    p.update_page(Event::BtnUp, &mut d, &noon());
    assert_eq!(p.curr_state(), PageState::MenuAlarm);
}

#[test]
fn alarm_leads_to_the_alarm_page_from_every_page() {
    let paths: [&[Event]; 5] = [
        &[],
        &[Event::BtnDown, Event::BtnMid],
        &[Event::BtnDown, Event::BtnDown, Event::BtnMid, Event::BtnMid],
        &[Event::BtnDown, Event::BtnDown, Event::BtnDown, Event::BtnMid],
        &[Event::BtnDown, Event::BtnDown, Event::BtnDown, Event::BtnDown],
    ];
    for path in paths {
        let mut p = Pages::new();
        let mut d = SharedData::new();
        feed(&mut p, &mut d, path);
        let before = p.curr_state();
        let req = p.update_page(Event::Alarm, &mut d, &noon());
        assert_eq!(p.curr_state(), PageState::MenuAlarmed);
        assert_eq!(p.curr_page(), Page::MenuAlarmed);
        if before == PageState::PgStopwatch {
            // leaving the stopwatch clears it instead of sounding the alarm
            assert_eq!(req, IoRequest::Nothing);
        } else {
            assert_eq!(req, IoRequest::PlayTone);
        }
    }
}

#[test]
fn no_event_changes_nothing() {
    let mut p = Pages::new();
    let mut d = SharedData::new();
    d.update = false;
    let req = p.update_page(Event::NoEvent, &mut d, &noon());
    assert_eq!(req, IoRequest::Nothing);
    assert_eq!(p.curr_state(), PageState::MenuTime);
    assert!(!d.update);
}

#[test]
fn minute_redraws_the_time_page_only() {
    let mut p = Pages::new();
    let mut d = SharedData::new();
    d.update = false;
    p.update_page(Event::Minute, &mut d, &noon());
    assert!(d.update);
    p.update_page(Event::BtnDown, &mut d, &noon());
    d.update = false;
    p.update_page(Event::Minute, &mut d, &noon());
    assert!(!d.update);
    assert_eq!(p.curr_state(), PageState::MenuSettings);
}

#[test]
fn setting_the_clock() {
    let mut p = Pages::new();
    let mut d = SharedData::new();
    // year 2025 -> 2027 -> 2026, month 1 -> 0, day 1 -> 31, hour 12 -> 13, minute 0 -> 59
    let reqs = feed(
        &mut p,
        &mut d,
        &[
            Event::BtnDown, Event::BtnMid, Event::BtnUp, Event::BtnUp, Event::BtnDown,
            Event::BtnMid, Event::BtnDown, Event::BtnMid, Event::BtnDown, Event::BtnMid,
            Event::BtnUp, Event::BtnMid, Event::BtnDown,
        ],
    );
    assert!(reqs.iter().all(|r| *r == IoRequest::Nothing));
    assert_eq!(p.curr_state(), PageState::PgDatesetMin);
    assert_eq!((d.year, d.month, d.day, d.hour, d.minute), (2026, 0, 31, 13, 59));
    let req = p.update_page(Event::BtnMid, &mut d, &noon());
    assert_eq!(
        req,
        IoRequest::SetDatetime { year: 2026, month: 0, day: 31, hour: 13, minute: 59 }
    );
    assert_eq!(p.curr_state(), PageState::MenuSettings);
}

#[test]
fn setting_values_wrap() {
    let mut d = SharedData::new();
    d.year = 2100;
    Pages::mv_dtset_yearup(&mut d);
    assert_eq!(d.year, 1970);
    Pages::mv_dtset_yeardown(&mut d);
    assert_eq!(d.year, 2100);
    d.month = 11;
    Pages::mv_dtset_monthup(&mut d);
    assert_eq!(d.month, 0);
    Pages::mv_dtset_monthdown(&mut d);
    assert_eq!(d.month, 11);
    d.month = 1;
    d.day = 28;
    Pages::mv_dtset_dayup(&mut d);
    assert_eq!(d.day, 1);
    Pages::mv_dtset_daydown(&mut d);
    assert_eq!(d.day, 28);
    d.month = 3;
    d.day = 1;
    Pages::mv_dtset_daydown(&mut d);
    assert_eq!(d.day, 30);
    d.hour = 23;
    Pages::mv_dtset_hourup(&mut d);
    assert_eq!(d.hour, 0);
    Pages::mv_dtset_hourdown(&mut d);
    assert_eq!(d.hour, 23);
    d.minute = 0;
    Pages::mv_dtset_mindown(&mut d);
    assert_eq!(d.minute, 59);
    Pages::mv_dtset_minup(&mut d);
    assert_eq!(d.minute, 0);
}

#[test]
fn setting_the_alarm() {
    let mut p = Pages::new();
    let mut d = SharedData::new();
    d.minute = 42;
    let reqs = feed(
        &mut p,
        &mut d,
        &[
            Event::BtnDown, Event::BtnDown, Event::BtnMid, Event::BtnUp, Event::BtnUp,
            Event::BtnMid, Event::BtnDown, Event::BtnMid, Event::BtnUp, Event::BtnMid,
            Event::BtnDown, Event::BtnDown,
        ],
    );
    assert!(reqs.iter().all(|r| *r == IoRequest::Nothing));
    assert_eq!(p.curr_state(), PageState::PgAlarmMin);
    assert_eq!(p.curr_page(), Page::PgDtsetMin);
    assert_eq!(d.mode, AlarmMode::Daily);
    assert_eq!((d.alarm_dow, d.alarm_hour, d.alarm_minute), (6, 1, 58));
    // the alarm is programmed with the minute of the clock setting
    let req = p.update_page(Event::BtnMid, &mut d, &noon());
    assert_eq!(req, IoRequest::SetAlarm { dow: 6, hour: 1, minute: 42 });
    assert_eq!(p.curr_state(), PageState::MenuAlarm);
}

#[test]
fn alarm_modes_cycle() {
    let mut d = SharedData::new();
    let order = [AlarmMode::Once, AlarmMode::Daily, AlarmMode::Weekly, AlarmMode::Off];
    for m in order {
        Pages::mv_alarm_modeup(&mut d);
        assert_eq!(d.mode, m);
    }
    Pages::mv_alarm_modedown(&mut d);
    assert_eq!(d.mode, AlarmMode::Weekly);
    d.alarm_dow = 6;
    Pages::mv_alarm_dowup(&mut d);
    assert_eq!(d.alarm_dow, 0);
    Pages::mv_alarm_dowdown(&mut d);
    assert_eq!(d.alarm_dow, 6);
    d.alarm_hour = 0;
    Pages::mv_alarm_hourdown(&mut d);
    assert_eq!(d.alarm_hour, 23);
    Pages::mv_alarm_hourup(&mut d);
    assert_eq!(d.alarm_hour, 0);
    d.alarm_minute = 59;
    Pages::mv_alarm_minup(&mut d);
    assert_eq!(d.alarm_minute, 0);
    Pages::mv_alarm_mindown(&mut d);
    assert_eq!(d.alarm_minute, 59);
}

#[test]
fn ringing_alarm_is_reset_with_the_middle_button() {
    let mut p = Pages::new();
    let mut d = SharedData::new();
    assert_eq!(p.update_page(Event::Alarm, &mut d, &noon()), IoRequest::PlayTone);
    assert_eq!(p.update_page(Event::BtnUp, &mut d, &noon()), IoRequest::Nothing);
    assert_eq!(p.curr_state(), PageState::MenuAlarmed);
    assert_eq!(p.update_page(Event::BtnMid, &mut d, &noon()), IoRequest::Nothing);
    assert_eq!(p.curr_state(), PageState::MenuTime);
    d.mode = AlarmMode::Once;
    p.update_page(Event::Alarm, &mut d, &noon());
    assert_eq!(p.update_page(Event::BtnMid, &mut d, &noon()), IoRequest::DisableAlarm);
    assert_eq!(Pages::mv_alarm_trigger(&mut d), IoRequest::PlayTone);
    assert_eq!(Pages::mv_alarm_exit(&mut d), IoRequest::SetAlarm { dow: 0, hour: 0, minute: 0 });
}

#[test]
fn snake_and_video_menus_ask_to_play() {
    let mut p = Pages::new();
    let mut d = SharedData::new();
    let reqs = feed(&mut p, &mut d, &[Event::BtnUp, Event::BtnMid, Event::BtnUp, Event::BtnDown, Event::BtnMid]);
    assert_eq!(reqs[1], IoRequest::PlayVideo);
    assert_eq!(p.curr_state(), PageState::MenuSnake);
    assert_eq!(reqs[4], IoRequest::PlaySnake);
}

#[test]
fn stopwatch_laps() {
    let mut p = Pages::new();
    let mut d = SharedData::new();
    feed(&mut p, &mut d, &[Event::BtnDown, Event::BtnDown, Event::BtnDown, Event::BtnMid]);
    assert_eq!(p.curr_state(), PageState::PgStopwatch);
    p.update_page(Event::BtnUp, &mut d, &at(10, 0, 0));
    assert_eq!(d.stopwatch_state, StopwatchState::Started);
    assert_eq!(d.time_start, at(10, 0, 0));
    p.update_page(Event::BtnDown, &mut d, &at(10, 1, 30));
    p.update_page(Event::BtnDown, &mut d, &at(10, 2, 0));
    assert_eq!(d.laps, [90, 120, 0, 0]);
    assert_eq!(d.lap_index, 2);
    // pausing records a lap too; starting again keeps the start time
    p.update_page(Event::BtnUp, &mut d, &at(10, 3, 0));
    assert_eq!(d.stopwatch_state, StopwatchState::Paused);
    assert_eq!(d.laps, [90, 120, 180, 0]);
    p.update_page(Event::BtnUp, &mut d, &at(11, 0, 0));
    assert_eq!(d.stopwatch_state, StopwatchState::Started);
    assert_eq!(d.time_start, at(10, 0, 0));
    p.update_page(Event::BtnDown, &mut d, &at(11, 0, 1));
    p.update_page(Event::BtnDown, &mut d, &at(11, 0, 2));
    // the fifth lap pushes out the first
    assert_eq!(d.laps, [120, 180, 3601, 3602]);
    assert_eq!(d.lap_index, 4);
}

#[test]
fn stopwatch_reset_and_exit() {
    let mut d = SharedData::new();
    Pages::mv_stopwatch_startstop(&mut d, &at(8, 0, 0));
    Pages::mv_stopwatch_rstlap(&mut d, &at(8, 0, 5));
    Pages::mv_stopwatch_startstop(&mut d, &at(8, 0, 9));
    assert_eq!(d.laps, [5, 9, 0, 0]);
    // paused: down resets
    Pages::mv_stopwatch_rstlap(&mut d, &at(8, 0, 10));
    assert_eq!(d.stopwatch_state, StopwatchState::Stopped);
    assert_eq!(d.laps, [0, 0, 0, 0]);
    assert_eq!(d.lap_index, 0);
    Pages::mv_stopwatch_startstop(&mut d, &at(9, 0, 0));
    Pages::mv_stopwatch_rstlap(&mut d, &at(9, 0, 1));
    Pages::mv_stopwatch_exit(&mut d);
    assert_eq!(d.stopwatch_state, StopwatchState::Stopped);
    assert_eq!(d.laps, [0, 0, 0, 0]);
    assert_eq!(d.lap_index, 0);
}

#[test]
fn stopwatch_laps_across_midnight() {
    let mut d = SharedData::new();
    let late = DateTime { year: 2024, month: 12, day: 31, hour: 23, minute: 59, second: 30 };
    let early = DateTime { year: 2025, month: 1, day: 1, hour: 0, minute: 0, second: 15 };
    Pages::mv_stopwatch_startstop(&mut d, &late);
    Pages::mv_stopwatch_rstlap(&mut d, &early);
    assert_eq!(d.laps[0], 45);
}

#[test]
fn counting_up_then_down_restores_each_setting() {
    let ups: [fn(&mut SharedData); 9] = [
        Pages::mv_alarm_modeup, Pages::mv_alarm_dowup, Pages::mv_alarm_hourup,
        Pages::mv_alarm_minup, Pages::mv_dtset_yearup, Pages::mv_dtset_monthup,
        Pages::mv_dtset_dayup, Pages::mv_dtset_hourup, Pages::mv_dtset_minup,
    ];
    let downs: [fn(&mut SharedData); 9] = [
        Pages::mv_alarm_modedown, Pages::mv_alarm_dowdown, Pages::mv_alarm_hourdown,
        Pages::mv_alarm_mindown, Pages::mv_dtset_yeardown, Pages::mv_dtset_monthdown,
        Pages::mv_dtset_daydown, Pages::mv_dtset_hourdown, Pages::mv_dtset_mindown,
    ];
    let mut d = SharedData::new();
    d.year = 2100;
    d.month = 3;
    d.day = 30;
    d.hour = 23;
    d.minute = 59;
    d.alarm_dow = 6;
    d.alarm_hour = 0;
    d.alarm_minute = 59;
    d.mode = AlarmMode::Weekly;
    for k in 0..9 {
        let mut e = SharedData::new();
        e.clone_from_settings(&d);
        ups[k](&mut e);
        downs[k](&mut e);
        assert!(e.same_settings(&d), "up then down, setting {}", k);
        downs[k](&mut e);
        ups[k](&mut e);
        assert!(e.same_settings(&d), "down then up, setting {}", k);
    }
}

#[test]
fn day_past_the_month_length_is_not_restored() {
    let mut d = SharedData::new();
    d.month = 1;
    d.day = 31;
    Pages::mv_dtset_dayup(&mut d);
    assert_eq!(d.day, 1);
    Pages::mv_dtset_daydown(&mut d);
    assert_eq!(d.day, 28);
}

trait Settings {
    fn clone_from_settings(&mut self, other: &SharedData);
    fn same_settings(&self, other: &SharedData) -> bool;
}

impl Settings for SharedData {
    fn clone_from_settings(&mut self, o: &SharedData) {
        self.year = o.year;
        self.month = o.month;
        self.day = o.day;
        self.hour = o.hour;
        self.minute = o.minute;
        self.mode = o.mode;
        self.alarm_dow = o.alarm_dow;
        self.alarm_hour = o.alarm_hour;
        self.alarm_minute = o.alarm_minute;
    }

    fn same_settings(&self, o: &SharedData) -> bool {
        (self.year, self.month, self.day, self.hour, self.minute)
            == (o.year, o.month, o.day, o.hour, o.minute)
            && self.mode == o.mode
            && (self.alarm_dow, self.alarm_hour, self.alarm_minute)
                == (o.alarm_dow, o.alarm_hour, o.alarm_minute)
    }
}
