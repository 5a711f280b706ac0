use epd_watch::io::text::{dtset_string, get_date_str, get_dow_str, get_time_str};
use epd_watch::io::{check_rtc, datetime_for_clock, default_datetime, DateTime, Event, Io};
use epd_watch::sim;

fn dt(year: i32, month: u32, day: u32, hour: u32, minute: u32, second: u32) -> DateTime {
    DateTime { year, month, day, hour, minute, second }
}

#[test]
fn rtc_alarm_wins_over_minute() {
    assert_eq!(check_rtc(Some(true), Some(true)), Event::Alarm);
    assert_eq!(check_rtc(Some(true), None), Event::Alarm);
    assert_eq!(check_rtc(Some(false), Some(true)), Event::Minute);
    assert_eq!(check_rtc(None, Some(true)), Event::Minute);
    assert_eq!(check_rtc(Some(false), Some(false)), Event::NoEvent);
    assert_eq!(check_rtc(None, None), Event::NoEvent);
}

#[test]
fn event_queue_is_first_in_first_out() {
    let mut io = Io::new();
    assert!(!io.buffer_has_ev());
    assert_eq!(io.get_input_waitms(), Event::NoEvent);
    io.push_event(Event::BtnUp);
    io.push_event(Event::Minute);
    assert!(io.buffer_has_ev());
    assert_eq!(io.pop_event(), Some(Event::BtnUp));
    assert_eq!(io.get_input_waitms(), Event::Minute);
    assert_eq!(io.pop_event(), None);
    assert!(!io.buffer_has_ev());
}

#[test]
fn event_queue_keeps_the_five_newest() {
    let mut io = Io::new();
    let evs = [Event::BtnUp, Event::BtnMid, Event::BtnDown, Event::Minute, Event::Alarm, Event::BtnMid];
    for ev in evs {
        io.push_event(ev);
    }
    let mut out = Vec::new();
    while let Some(ev) = io.pop_event() {
        out.push(ev);
    }
    assert_eq!(out, vec![Event::BtnMid, Event::BtnDown, Event::Minute, Event::Alarm, Event::BtnMid]);
}

#[test]
fn interrupt_records_clock_event_then_buttons() {
    let mut io = Io::new();
    io.record_inputs(Some(Event::Alarm), true, false, true);
    io.record_inputs(None, false, true, false);
    let mut out = Vec::new();
    while let Some(ev) = io.pop_event() {
        out.push(ev);
    }
    assert_eq!(out, vec![Event::Alarm, Event::BtnUp, Event::BtnDown, Event::BtnMid]);
}

#[test]
fn interrupt_with_nothing_held_records_nothing() {
    let mut io = Io::new();
    io.record_inputs(None, false, false, false);
    assert!(!io.buffer_has_ev());
}

#[test]
fn clock_setting_checks_the_calendar() {
    assert_eq!(datetime_for_clock(2025, 3, 19, 7, 45), Some(dt(2025, 3, 19, 7, 45, 0)));
    assert_eq!(datetime_for_clock(2024, 2, 29, 0, 0), Some(dt(2024, 2, 29, 0, 0, 0)));
    assert_eq!(datetime_for_clock(2025, 2, 29, 0, 0), None);
    assert_eq!(datetime_for_clock(2100, 2, 29, 0, 0), None);
    assert_eq!(datetime_for_clock(2000, 2, 29, 23, 59), Some(dt(2000, 2, 29, 23, 59, 0)));
    assert_eq!(datetime_for_clock(2025, 4, 31, 0, 0), None);
    assert_eq!(datetime_for_clock(2025, 0, 1, 0, 0), None);
    assert_eq!(datetime_for_clock(2025, 13, 1, 0, 0), None);
    assert_eq!(datetime_for_clock(2025, 1, 0, 0, 0), None);
    assert_eq!(datetime_for_clock(2025, 1, 1, 24, 0), None);
    assert_eq!(datetime_for_clock(2025, 1, 1, 0, 60), None);
}

#[test]
fn default_reading() {
    assert_eq!(default_datetime(), dt(2025, 1, 1, 12, 0, 0));
}

#[test]
fn time_text_is_zero_padded() {
    assert_eq!(get_time_str(&dt(2025, 1, 1, 9, 5, 0)), "09:05");
    assert_eq!(get_time_str(&dt(2025, 1, 1, 23, 59, 59)), "23:59");
    assert_eq!(get_time_str(&dt(2025, 1, 1, 0, 0, 0)), "00:00");
}

#[test]
fn date_text() {
    assert_eq!(get_date_str(&dt(2025, 3, 19, 0, 0, 0)), "19 mar");
    assert_eq!(get_date_str(&dt(2025, 1, 1, 0, 0, 0)), "1 jan");
    assert_eq!(get_date_str(&dt(2025, 12, 31, 0, 0, 0)), "31 dec");
}

#[test]
fn day_of_the_week_text() {
    assert_eq!(get_dow_str(&dt(2025, 1, 1, 0, 0, 0)), "wed");
    assert_eq!(get_dow_str(&dt(2024, 2, 29, 0, 0, 0)), "thu");
    assert_eq!(get_dow_str(&dt(2025, 3, 23, 0, 0, 0)), "sun");
    assert_eq!(get_dow_str(&dt(2025, 3, 24, 0, 0, 0)), "mon");
}

#[test]
fn setting_values_in_decimal() {
    assert_eq!(dtset_string(2025), "2025");
    assert_eq!(dtset_string(0), "0");
    assert_eq!(dtset_string(7), "7");
    assert_eq!(dtset_string(65535), "65535");
}

#[test]
fn stand_in_reads_typed_codes() {
    let mut io = sim::Io::new();
    assert_eq!(io.input_event(0), Event::NoEvent);
    assert_eq!(io.input_event(2), Event::Alarm);
    assert_eq!(io.input_event(3), Event::BtnUp);
    assert_eq!(io.input_event(4), Event::BtnMid);
    assert_eq!(io.input_event(5), Event::BtnDown);
    assert_eq!(io.input_event(6), Event::NoEvent);
    assert_eq!(io.input_event(-1), Event::NoEvent);
    assert_eq!(io.get_time_str(), "12:00");
    assert_eq!(io.input_event(1), Event::Minute);
    assert_eq!(io.get_time_str(), "12:01");
}

#[test]
fn stand_in_clock_rolls_over() {
    let mut io = sim::Io::new();
    assert!(io.set_datetime(2025, 1, 27, 23, 59));
    io.inc_clock();
    assert_eq!((io.day, io.hour, io.minute), (0, 0, 0));
    io.inc_clock();
    // while the hour reads 0 every tick moves the day
    assert_eq!((io.day, io.hour, io.minute), (1, 0, 1));
    io.set_datetime(2025, 1, 3, 10, 59);
    io.inc_clock();
    assert_eq!((io.day, io.hour, io.minute), (3, 11, 0));
}

#[test]
fn stand_in_texts() {
    let mut io = sim::Io::new();
    io.set_datetime(2025, 2, 19, 8, 7);
    assert_eq!(io.get_time_str(), "08:07");
    assert_eq!(io.get_date_str(), "19 mar");
    assert_eq!(io.get_dow_str(), "sat");
    assert_eq!(io.get_datetime(), dt(2025, 1, 1, 12, 0, 0));
}
