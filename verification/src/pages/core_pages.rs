use vstd::prelude::*;
use crate::io::{DateTime, seconds_since, seconds_between};
use crate::pages::Pages;
use crate::shared_data::{SharedData, AlarmMode, StopwatchState};

verus! {

/// What a page transition does besides switching the page.
#[derive(Clone, Copy, Debug, PartialEq, Eq, Structural)]
pub enum Move {
    AlarmTrigger,
    AlarmReset,
    AlarmExit,
    AlarmModeUp,
    AlarmModeDown,
    AlarmDowUp,
    AlarmDowDown,
    AlarmHourUp,
    AlarmHourDown,
    AlarmMinUp,
    AlarmMinDown,
    StopwatchExit,
    StopwatchStartStop,
    StopwatchRstLap,
    DtsetExit,
    DtsetYearUp,
    DtsetYearDown,
    DtsetMonthUp,
    DtsetMonthDown,
    DtsetDayUp,
    DtsetDayDown,
    DtsetHourUp,
    DtsetHourDown,
    DtsetMinUp,
    DtsetMinDown,
    Snake,
    Video,
}

/// The work outside the pages' data that a transition asks for.
#[derive(Clone, Copy, Debug, PartialEq, Eq, Structural)]
pub enum IoRequest {
    Nothing,
    /// Sound the alarm.
    PlayTone,
    /// Switch the clock chip's alarm off.
    DisableAlarm,
    /// Program the clock chip's alarm for this day of the week and time.
    SetAlarm { dow: u8, hour: u8, minute: u8 },
    /// Set the clock chip's date and time.
    SetDatetime { year: u16, month: u8, day: u8, hour: u8, minute: u8 },
    /// Run the snake game until it is left.
    PlaySnake,
    /// Play the video until it ends or is stopped.
    PlayVideo,
}

/// Days in each month (0 = January) as the day setting cycles through them: February has 28.
pub open spec fn month_days(month: int) -> int {
    if month == 1 {
        28
    } else if month == 3 || month == 5 || month == 8 || month == 10 {
        30
    } else {
        31
    }
}

/// The next alarm mode: off, once, daily, weekly, then off again.
pub open spec fn mode_after(m: AlarmMode) -> AlarmMode {
    match m {
        AlarmMode::Off => AlarmMode::Once,
        AlarmMode::Once => AlarmMode::Daily,
        AlarmMode::Daily => AlarmMode::Weekly,
        AlarmMode::Weekly => AlarmMode::Off,
    }
}

/// The previous alarm mode.
pub open spec fn mode_before(m: AlarmMode) -> AlarmMode {
    match m {
        AlarmMode::Off => AlarmMode::Weekly,
        AlarmMode::Once => AlarmMode::Off,
        AlarmMode::Daily => AlarmMode::Once,
        AlarmMode::Weekly => AlarmMode::Daily,
    }
}

/// `v` counted up in `0..=max`, wrapping to 0.
pub open spec fn wrap_up(v: int, max: int) -> int {
    if v >= max {
        0
    } else {
        v + 1
    }
}

/// `v` counted down in `0..=max`, wrapping to `max`.
pub open spec fn wrap_down(v: int, max: int) -> int {
    if v == 0 {
        max
    } else {
        v - 1
    }
}

/// The laps after one more lap of `time` seconds: when four are kept the oldest goes.
pub open spec fn laps_with(laps: Seq<i64>, lap_index: int, time: i64) -> Seq<i64> {
    if lap_index >= 4 {
        seq![laps[1], laps[2], laps[3], time]
    } else {
        laps.update(lap_index, time)
    }
}

/// Where the next lap goes once one more is recorded: at most four are kept.
pub open spec fn lap_index_after(lap_index: int) -> int {
    if lap_index >= 4 {
        4
    } else {
        lap_index + 1
    }
}

/// `n` is `d` with the running time recorded as a lap and the stopwatch in `state`.
pub open spec fn with_lap(d: SharedData, now: DateTime, state: StopwatchState, n: SharedData) -> bool {
    &&& n == SharedData {
        stopwatch_state: state,
        laps: n.laps,
        lap_index: lap_index_after(d.lap_index as int) as usize,
        ..d
    }
    &&& n.laps@ == laps_with(d.laps@, d.lap_index as int, seconds_between(now, d.time_start) as i64)
}

/// `n` is `d` with the stopwatch stopped and its laps cleared.
pub open spec fn stopwatch_cleared(d: SharedData, n: SharedData) -> bool {
    &&& n == SharedData {
        stopwatch_state: StopwatchState::Stopped,
        laps: n.laps,
        lap_index: 0,
        ..d
    }
    &&& n.laps@ == seq![0i64, 0, 0, 0]
}

/// `n` is the data `d` after move `mv`. `now` is the clock's reading, which only the stopwatch
/// reads.
pub open spec fn moved(mv: Move, d: SharedData, now: DateTime, n: SharedData) -> bool {
    match mv {
        Move::AlarmModeUp => n == SharedData { mode: mode_after(d.mode), ..d },
        Move::AlarmModeDown => n == SharedData { mode: mode_before(d.mode), ..d },
        Move::AlarmDowUp => n == SharedData { alarm_dow: wrap_up(d.alarm_dow as int, 6) as u8, ..d },
        Move::AlarmDowDown => n == SharedData {
            alarm_dow: wrap_down(d.alarm_dow as int, 6) as u8,
            ..d
        },
        Move::AlarmHourUp => n == SharedData {
            alarm_hour: wrap_up(d.alarm_hour as int, 23) as u8,
            ..d
        },
        Move::AlarmHourDown => n == SharedData {
            alarm_hour: wrap_down(d.alarm_hour as int, 23) as u8,
            ..d
        },
        Move::AlarmMinUp => n == SharedData {
            alarm_minute: wrap_up(d.alarm_minute as int, 59) as u8,
            ..d
        },
        Move::AlarmMinDown => n == SharedData {
            alarm_minute: wrap_down(d.alarm_minute as int, 59) as u8,
            ..d
        },
        Move::StopwatchExit => stopwatch_cleared(d, n),
        Move::StopwatchStartStop => if d.stopwatch_state == StopwatchState::Started {
            with_lap(d, now, StopwatchState::Paused, n)
        } else if d.stopwatch_state == StopwatchState::Stopped {
            n == SharedData { stopwatch_state: StopwatchState::Started, time_start: now, ..d }
        } else {
            n == SharedData { stopwatch_state: StopwatchState::Started, ..d }
        },
        Move::StopwatchRstLap => if d.stopwatch_state == StopwatchState::Started {
            with_lap(d, now, StopwatchState::Started, n)
        } else {
            stopwatch_cleared(d, n)
        },
        Move::DtsetYearUp => n == SharedData {
            year: (if d.year >= 2100 {
                1970
            } else {
                d.year + 1
            }) as u16,
            ..d
        },
        Move::DtsetYearDown => n == SharedData {
            year: (if d.year <= 1970 {
                2100
            } else {
                d.year - 1
            }) as u16,
            ..d
        },
        Move::DtsetMonthUp => n == SharedData { month: wrap_up(d.month as int, 11) as u8, ..d },
        Move::DtsetMonthDown => n == SharedData { month: wrap_down(d.month as int, 11) as u8, ..d },
        Move::DtsetDayUp => n == SharedData {
            day: (if d.day >= month_days(d.month as int) {
                1
            } else {
                d.day + 1
            }) as u8,
            ..d
        },
        Move::DtsetDayDown => n == SharedData {
            day: (if d.day == 1 {
                month_days(d.month as int)
            } else {
                d.day - 1
            }) as u8,
            ..d
        },
        Move::DtsetHourUp => n == SharedData { hour: wrap_up(d.hour as int, 23) as u8, ..d },
        Move::DtsetHourDown => n == SharedData { hour: wrap_down(d.hour as int, 23) as u8, ..d },
        Move::DtsetMinUp => n == SharedData { minute: wrap_up(d.minute as int, 59) as u8, ..d },
        Move::DtsetMinDown => n == SharedData { minute: wrap_down(d.minute as int, 59) as u8, ..d },
        _ => n == d,
    }
}

/// The outside work a move asks for. Leaving the alarm pages programs the alarm with the minute
/// of the clock setting, not that of the alarm setting.
pub open spec fn move_request(mv: Move, d: SharedData) -> IoRequest {
    match mv {
        Move::AlarmTrigger => IoRequest::PlayTone,
        Move::AlarmReset => if d.mode == AlarmMode::Once {
            IoRequest::DisableAlarm
        } else {
            IoRequest::Nothing
        },
        Move::AlarmExit => IoRequest::SetAlarm {
            dow: d.alarm_dow,
            hour: d.alarm_hour,
            minute: d.minute,
        },
        Move::DtsetExit => IoRequest::SetDatetime {
            year: d.year,
            month: d.month,
            day: d.day,
            hour: d.hour,
            minute: d.minute,
        },
        Move::Snake => IoRequest::PlaySnake,
        Move::Video => IoRequest::PlayVideo,
        _ => IoRequest::Nothing,
    }
}

/// The move reads the clock.
pub open spec fn move_reads_clock(mv: Move, d: SharedData) -> bool {
    (mv == Move::StopwatchStartStop && d.stopwatch_state != StopwatchState::Paused) || (mv
        == Move::StopwatchRstLap && d.stopwatch_state == StopwatchState::Started)
}

/// The move runs without a panic: the day settings index the table of month lengths, the day
/// counts down from 1 at the lowest, and a lap goes to one of the four lap slots. A clock
/// reading is a valid date and time.
pub open spec fn move_allowed(mv: Move, d: SharedData, now: DateTime) -> bool {
    &&& (mv == Move::DtsetDayUp || mv == Move::DtsetDayDown) ==> d.month < 12
    &&& mv == Move::DtsetDayDown ==> d.day != 0
    &&& (mv == Move::StopwatchStartStop || mv == Move::StopwatchRstLap) && d.stopwatch_state
        == StopwatchState::Started ==> d.lap_index <= 4 && d.time_start.valid()
    &&& move_reads_clock(mv, d) ==> now.valid()
}

impl Pages {
    /// Sounds the alarm.
    pub fn mv_alarm_trigger(data: &mut SharedData) -> (req: IoRequest)
        ensures
            *final(data) == *old(data),
            req == IoRequest::PlayTone,
    {
        IoRequest::PlayTone
    }

    /// Stops the ringing alarm: an alarm set to ring once is switched off.
    pub fn mv_alarm_reset(data: &mut SharedData) -> (req: IoRequest)
        ensures
            *final(data) == *old(data),
            req == move_request(Move::AlarmReset, *old(data)),
    {
        if data.mode == AlarmMode::Once {
            IoRequest::DisableAlarm
        } else {
            IoRequest::Nothing
        }
    }

    /// Leaves the alarm pages, programming the alarm.
    pub fn mv_alarm_exit(data: &mut SharedData) -> (req: IoRequest)
        ensures
            *final(data) == *old(data),
            req == move_request(Move::AlarmExit, *old(data)),
    {
        IoRequest::SetAlarm { dow: data.alarm_dow, hour: data.alarm_hour, minute: data.minute }
    }

    /// The next alarm mode.
    pub fn mv_alarm_modeup(data: &mut SharedData)
        ensures
            moved(Move::AlarmModeUp, *old(data), arbitrary(), *final(data)),
    {
        data.mode = match data.mode {
            AlarmMode::Off => AlarmMode::Once,
            AlarmMode::Once => AlarmMode::Daily,
            AlarmMode::Daily => AlarmMode::Weekly,
            AlarmMode::Weekly => AlarmMode::Off,
        };
    }

    /// The previous alarm mode.
    pub fn mv_alarm_modedown(data: &mut SharedData)
        ensures
            moved(Move::AlarmModeDown, *old(data), arbitrary(), *final(data)),
    {
        data.mode = match data.mode {
            AlarmMode::Off => AlarmMode::Weekly,
            AlarmMode::Once => AlarmMode::Off,
            AlarmMode::Daily => AlarmMode::Once,
            AlarmMode::Weekly => AlarmMode::Daily,
        };
    }

    /// The alarm one day of the week later, Sunday wrapping to Monday.
    pub fn mv_alarm_dowup(data: &mut SharedData)
        ensures
            moved(Move::AlarmDowUp, *old(data), arbitrary(), *final(data)),
    {
        data.alarm_dow = if data.alarm_dow >= 6 {
            0
        } else {
            data.alarm_dow + 1
        };
    }

    /// The alarm one day of the week earlier, Monday wrapping to Sunday.
    pub fn mv_alarm_dowdown(data: &mut SharedData)
        ensures
            moved(Move::AlarmDowDown, *old(data), arbitrary(), *final(data)),
    {
        data.alarm_dow = if data.alarm_dow == 0 {
            6
        } else {
            data.alarm_dow - 1
        };
    }

    /// The alarm one hour later, 23 wrapping to 0.
    pub fn mv_alarm_hourup(data: &mut SharedData)
        ensures
            moved(Move::AlarmHourUp, *old(data), arbitrary(), *final(data)),
    {
        data.alarm_hour = if data.alarm_hour >= 23 {
            0
        } else {
            data.alarm_hour + 1
        };
    }

    /// The alarm one hour earlier, 0 wrapping to 23.
    pub fn mv_alarm_hourdown(data: &mut SharedData)
        ensures
            moved(Move::AlarmHourDown, *old(data), arbitrary(), *final(data)),
    {
        data.alarm_hour = if data.alarm_hour == 0 {
            23
        } else {
            data.alarm_hour - 1
        };
    }

    /// The alarm one minute later, 59 wrapping to 0.
    pub fn mv_alarm_minup(data: &mut SharedData)
        ensures
            moved(Move::AlarmMinUp, *old(data), arbitrary(), *final(data)),
    {
        data.alarm_minute = if data.alarm_minute >= 59 {
            0
        } else {
            data.alarm_minute + 1
        };
    }

    /// The alarm one minute earlier, 0 wrapping to 59.
    pub fn mv_alarm_mindown(data: &mut SharedData)
        ensures
            moved(Move::AlarmMinDown, *old(data), arbitrary(), *final(data)),
    {
        data.alarm_minute = if data.alarm_minute == 0 {
            59
        } else {
            data.alarm_minute - 1
        };
    }

    /// Leaves the stopwatch: it stops and its laps are cleared.
    pub fn mv_stopwatch_exit(data: &mut SharedData)
        ensures
            moved(Move::StopwatchExit, *old(data), arbitrary(), *final(data)),
    {
        data.stopwatch_state = StopwatchState::Stopped;
        let td: i64 = 0;
        data.laps = [td, td, td, td];
        data.lap_index = 0;
        assert(data.laps@ == seq![0i64, 0, 0, 0]);
    }

    /// Records the running time as a lap, dropping the oldest lap when four are kept.
    fn record_lap(data: &mut SharedData, now: &DateTime)
        requires
            old(data).lap_index <= 4,
            old(data).time_start.valid(),
            now.valid(),
        ensures
            final(data).laps@ == laps_with(
                old(data).laps@,
                old(data).lap_index as int,
                seconds_between(*now, old(data).time_start) as i64,
            ),
            final(data).lap_index == lap_index_after(old(data).lap_index as int),
            *final(data) == (SharedData {
                laps: final(data).laps,
                lap_index: final(data).lap_index,
                ..*old(data)
            }),
    {
        if data.lap_index >= data.laps.len() {
            let mut i: usize = 0;
            while i < 3
                invariant
                    0 <= i <= 3,
                    data.lap_index == old(data).lap_index,
                    data.lap_index >= 4,
                    forall|j: int| 0 <= j < i ==> data.laps@[j] == old(data).laps@[j + 1],
                    forall|j: int| i <= j < 4 ==> data.laps@[j] == old(data).laps@[j],
                    *data == (SharedData { laps: data.laps, ..*old(data) }),
                decreases 3 - i,
            {
                data.laps[i] = data.laps[i + 1];
                i += 1;
            }
            data.lap_index -= 1;
        }
        let time = seconds_since(now, &data.time_start);
        data.laps[data.lap_index] = time;
        data.lap_index += 1;
        assert(data.laps@ == laps_with(
            old(data).laps@,
            old(data).lap_index as int,
            seconds_between(*now, old(data).time_start) as i64,
        ));
    }

    /// Starts the stopwatch (from `now` when it was stopped), or pauses a running one and
    /// records the running time as a lap.
    pub fn mv_stopwatch_startstop(data: &mut SharedData, now: &DateTime)
        requires
            move_allowed(Move::StopwatchStartStop, *old(data), *now),
        ensures
            moved(Move::StopwatchStartStop, *old(data), *now, *final(data)),
    {
        if data.stopwatch_state == StopwatchState::Started {
            data.stopwatch_state = StopwatchState::Paused;
            Self::record_lap(data, now);
        } else {
            if data.stopwatch_state == StopwatchState::Stopped {
                data.time_start = *now;
            }
            data.stopwatch_state = StopwatchState::Started;
        }
    }

    /// Records a lap while the stopwatch runs; otherwise stops it and clears its laps.
    pub fn mv_stopwatch_rstlap(data: &mut SharedData, now: &DateTime)
        requires
            move_allowed(Move::StopwatchRstLap, *old(data), *now),
        ensures
            moved(Move::StopwatchRstLap, *old(data), *now, *final(data)),
    {
        if data.stopwatch_state == StopwatchState::Started {
            Self::record_lap(data, now);
        } else {
            data.stopwatch_state = StopwatchState::Stopped;
            let td: i64 = 0;
            data.laps = [td, td, td, td];
            data.lap_index = 0;
            assert(data.laps@ == seq![0i64, 0, 0, 0]);
        }
    }

    /// Leaves the clock setting, asking to set the clock.
    pub fn mv_dtset_exit(data: &mut SharedData) -> (req: IoRequest)
        ensures
            *final(data) == *old(data),
            req == move_request(Move::DtsetExit, *old(data)),
    {
        IoRequest::SetDatetime {
            year: data.year,
            month: data.month,
            day: data.day,
            hour: data.hour,
            minute: data.minute,
        }
    }

    /// The next year, 2100 wrapping to 1970.
    pub fn mv_dtset_yearup(data: &mut SharedData)
        ensures
            moved(Move::DtsetYearUp, *old(data), arbitrary(), *final(data)),
    {
        data.year = if data.year >= 2100 {
            1970
        } else {
            data.year + 1
        };
    }

    /// The previous year, 1970 wrapping to 2100.
    pub fn mv_dtset_yeardown(data: &mut SharedData)
        ensures
            moved(Move::DtsetYearDown, *old(data), arbitrary(), *final(data)),
    {
        data.year = if data.year <= 1970 {
            2100
        } else {
            data.year - 1
        };
    }

    /// The next month, counted from 0, December wrapping to January.
    pub fn mv_dtset_monthup(data: &mut SharedData)
        ensures
            moved(Move::DtsetMonthUp, *old(data), arbitrary(), *final(data)),
    {
        data.month = if data.month >= 11 {
            0
        } else {
            data.month + 1
        };
    }

    /// The previous month, counted from 0, January wrapping to December.
    pub fn mv_dtset_monthdown(data: &mut SharedData)
        ensures
            moved(Move::DtsetMonthDown, *old(data), arbitrary(), *final(data)),
    {
        data.month = if data.month == 0 {
            11
        } else {
            data.month - 1
        };
    }

    /// The next hour, 23 wrapping to 0.
    pub fn mv_dtset_hourup(data: &mut SharedData)
        ensures
            moved(Move::DtsetHourUp, *old(data), arbitrary(), *final(data)),
    {
        data.hour = if data.hour >= 23 {
            0
        } else {
            data.hour + 1
        };
    }

    /// The previous hour, 0 wrapping to 23.
    pub fn mv_dtset_hourdown(data: &mut SharedData)
        ensures
            moved(Move::DtsetHourDown, *old(data), arbitrary(), *final(data)),
    {
        data.hour = if data.hour == 0 {
            23
        } else {
            data.hour - 1
        };
    }

    /// The next minute, 59 wrapping to 0.
    pub fn mv_dtset_minup(data: &mut SharedData)
        ensures
            moved(Move::DtsetMinUp, *old(data), arbitrary(), *final(data)),
    {
        data.minute = if data.minute >= 59 {
            0
        } else {
            data.minute + 1
        };
    }

    /// The previous minute, 0 wrapping to 59.
    pub fn mv_dtset_mindown(data: &mut SharedData)
        ensures
            moved(Move::DtsetMinDown, *old(data), arbitrary(), *final(data)),
    {
        data.minute = if data.minute == 0 {
            59
        } else {
            data.minute - 1
        };
    }

    /// The next day of the month, the last day of the month (February has 28) wrapping to 1.
    pub fn mv_dtset_dayup(data: &mut SharedData)
        requires
            old(data).month < 12,
        ensures
            moved(Move::DtsetDayUp, *old(data), arbitrary(), *final(data)),
    {
        let days: [u8; 12] = [31, 28, 31, 30, 31, 30, 31, 31, 30, 31, 30, 31];
        data.day = if data.day >= days[data.month as usize] {
            1
        } else {
            data.day + 1
        };
    }

    /// The previous day of the month, 1 wrapping to the last day of the month.
    pub fn mv_dtset_daydown(data: &mut SharedData)
        requires
            old(data).month < 12,
            old(data).day != 0,
        ensures
            moved(Move::DtsetDayDown, *old(data), arbitrary(), *final(data)),
    {
        let days: [u8; 12] = [31, 28, 31, 30, 31, 30, 31, 31, 30, 31, 30, 31];
        data.day = if data.day == 1 {
            days[data.month as usize]
        } else {
            data.day - 1
        };
    }
}

} // verus!
