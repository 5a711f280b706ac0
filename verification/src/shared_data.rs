use vstd::prelude::*;
use crate::io::{DateTime, default_datetime};

verus! {

/// How often the alarm rings.
#[derive(Clone, Copy, Debug, PartialEq, Eq, Structural)]
pub enum AlarmMode {
    Off,
    Once,
    Daily,
    Weekly,
}

/// Whether the stopwatch runs, is paused with its laps kept, or is stopped.
#[derive(Clone, Copy, Debug, PartialEq, Eq, Structural)]
pub enum StopwatchState {
    Started,
    Paused,
    Stopped,
}

/// What the pages share: the date and time being set, the alarm being set, and the stopwatch.
/// Lap times are in seconds.
pub struct SharedData {
    pub update: bool,
    pub year: u16,
    pub month: u8,
    pub day: u8,
    pub hour: u8,
    pub minute: u8,
    pub dateset_alarm: bool,
    pub mode: AlarmMode,
    pub alarm_dow: u8,
    pub alarm_hour: u8,
    pub alarm_minute: u8,
    pub stopwatch_state: StopwatchState,
    pub time_start: DateTime,
    pub laps: [i64; 4],
    pub lap_index: usize,
}

impl SharedData {
    /// The settings stay in the ranges that the setting pages cycle through: the month is counted
    /// from 0, the day of the week from 0 (Monday), and at most four laps are kept.
    pub open spec fn wf(self) -> bool {
        &&& 1970 <= self.year <= 2100
        &&& self.month < 12
        &&& 1 <= self.day <= 31
        &&& self.hour < 24
        &&& self.minute < 60
        &&& self.alarm_dow < 7
        &&& self.alarm_hour < 24
        &&& self.alarm_minute < 60
        &&& self.lap_index <= 4
        &&& self.time_start.valid()
    }

    /// Start-up values: 2025-01-01 12:00, alarm off at day 0, 00:00, stopwatch stopped.
    pub fn new() -> (d: SharedData)
        ensures
            d.wf(),
            d.update,
            d.year == 2025,
            d.month == 1,
            d.day == 1,
            d.hour == 12,
            d.minute == 0,
            !d.dateset_alarm,
            d.mode == AlarmMode::Off,
            d.alarm_dow == 0,
            d.alarm_hour == 0,
            d.alarm_minute == 0,
            d.stopwatch_state == StopwatchState::Stopped,
            d.time_start == (DateTime { year: 2025, month: 1, day: 1, hour: 12, minute: 0, second: 0 }),
            d.laps@ == seq![0i64, 0, 0, 0],
            d.lap_index == 0,
    {
        let dt = default_datetime();
        let td: i64 = 0;
        let d = SharedData {
            update: true,
            year: 2025,
            month: 1,
            day: 1,
            hour: 12,
            minute: 0,
            dateset_alarm: false,
            mode: AlarmMode::Off,
            alarm_dow: 0,
            alarm_hour: 0,
            alarm_minute: 0,
            stopwatch_state: StopwatchState::Stopped,
            time_start: dt,
            laps: [td, td, td, td],
            lap_index: 0,
        };
        assert(d.laps@ == seq![0i64, 0, 0, 0]);
        d
    }
}

} // verus!
