use vstd::prelude::*;
use crate::io::{DateTime, Event};
use crate::pages::{Pages, Page, page_of};
use crate::pages::state::PageState;
use crate::pages::core_pages::{Move, IoRequest, moved, move_request, move_allowed};
use crate::shared_data::SharedData;

verus! {

/// The transition table: the state that event `ev` leads to from state `s` and the move made
/// on the way, or none when the state ignores the event. The alarm leads to the alarm page from
/// everywhere; the buttons move through the menus and change the settings.
pub open spec fn step(s: PageState, ev: Event) -> Option<(PageState, Option<Move>)> {
    match s {
        PageState::MenuTime => match ev {
            Event::Alarm => Some((PageState::MenuAlarmed, Some(Move::AlarmTrigger))),
            Event::Minute => Some((PageState::MenuTime, None)),
            Event::BtnUp => Some((PageState::MenuVideo, None)),
            Event::BtnDown => Some((PageState::MenuSettings, None)),
            _ => None,
        },
        PageState::MenuSettings => match ev {
            Event::Alarm => Some((PageState::MenuAlarmed, Some(Move::AlarmTrigger))),
            Event::BtnUp => Some((PageState::MenuTime, None)),
            Event::BtnMid => Some((PageState::PgDatesetYear, None)),
            Event::BtnDown => Some((PageState::MenuAlarm, None)),
            _ => None,
        },
        PageState::MenuAlarm => match ev {
            Event::Alarm => Some((PageState::MenuAlarmed, Some(Move::AlarmTrigger))),
            Event::BtnUp => Some((PageState::MenuSettings, None)),
            Event::BtnMid => Some((PageState::PgAlarmMode, None)),
            Event::BtnDown => Some((PageState::MenuStopwatch, None)),
            _ => None,
        },
        PageState::MenuStopwatch => match ev {
            Event::Alarm => Some((PageState::MenuAlarmed, Some(Move::AlarmTrigger))),
            Event::BtnUp => Some((PageState::MenuAlarm, None)),
            Event::BtnMid => Some((PageState::PgStopwatch, None)),
            Event::BtnDown => Some((PageState::MenuSnake, None)),
            _ => None,
        },
        PageState::MenuSnake => match ev {
            Event::Alarm => Some((PageState::MenuAlarmed, Some(Move::AlarmTrigger))),
            Event::BtnUp => Some((PageState::MenuStopwatch, None)),
            Event::BtnMid => Some((PageState::MenuSnake, Some(Move::Snake))),
            Event::BtnDown => Some((PageState::MenuVideo, None)),
            _ => None,
        },
        PageState::MenuVideo => match ev {
            Event::Alarm => Some((PageState::MenuAlarmed, Some(Move::AlarmTrigger))),
            Event::BtnUp => Some((PageState::MenuStopwatch, None)),
            Event::BtnMid => Some((PageState::MenuVideo, Some(Move::Video))),
            Event::BtnDown => Some((PageState::MenuTime, None)),
            _ => None,
        },
        PageState::MenuAlarmed => match ev {
            Event::Alarm => Some((PageState::MenuAlarmed, Some(Move::AlarmTrigger))),
            Event::BtnMid => Some((PageState::MenuTime, Some(Move::AlarmReset))),
            _ => None,
        },
        PageState::PgAlarmMode => match ev {
            Event::Alarm => Some((PageState::MenuAlarmed, Some(Move::AlarmTrigger))),
            Event::BtnUp => Some((PageState::PgAlarmMode, Some(Move::AlarmModeUp))),
            Event::BtnMid => Some((PageState::PgAlarmDow, None)),
            Event::BtnDown => Some((PageState::PgAlarmMode, Some(Move::AlarmModeDown))),
            _ => None,
        },
        PageState::PgAlarmDow => match ev {
            Event::Alarm => Some((PageState::MenuAlarmed, Some(Move::AlarmTrigger))),
            Event::BtnUp => Some((PageState::PgAlarmDow, Some(Move::AlarmDowUp))),
            Event::BtnMid => Some((PageState::PgAlarmHour, None)),
            Event::BtnDown => Some((PageState::PgAlarmDow, Some(Move::AlarmDowDown))),
            _ => None,
        },
        PageState::PgAlarmHour => match ev {
            Event::Alarm => Some((PageState::MenuAlarmed, Some(Move::AlarmTrigger))),
            Event::BtnUp => Some((PageState::PgAlarmHour, Some(Move::AlarmHourUp))),
            Event::BtnMid => Some((PageState::PgAlarmMin, None)),
            Event::BtnDown => Some((PageState::PgAlarmHour, Some(Move::AlarmHourDown))),
            _ => None,
        },
        PageState::PgAlarmMin => match ev {
            Event::Alarm => Some((PageState::MenuAlarmed, Some(Move::AlarmTrigger))),
            Event::BtnUp => Some((PageState::PgAlarmMin, Some(Move::AlarmMinUp))),
            Event::BtnMid => Some((PageState::MenuAlarm, Some(Move::AlarmExit))),
            Event::BtnDown => Some((PageState::PgAlarmMin, Some(Move::AlarmMinDown))),
            _ => None,
        },
        PageState::PgStopwatch => match ev {
            Event::Alarm => Some((PageState::MenuAlarmed, Some(Move::StopwatchExit))),
            Event::BtnUp => Some((PageState::PgStopwatch, Some(Move::StopwatchStartStop))),
            Event::BtnMid => Some((PageState::MenuStopwatch, Some(Move::StopwatchExit))),
            Event::BtnDown => Some((PageState::PgStopwatch, Some(Move::StopwatchRstLap))),
            _ => None,
        },
        PageState::PgDatesetYear => match ev {
            Event::Alarm => Some((PageState::MenuAlarmed, Some(Move::AlarmTrigger))),
            Event::BtnUp => Some((PageState::PgDatesetYear, Some(Move::DtsetYearUp))),
            Event::BtnMid => Some((PageState::PgDatesetMonth, None)),
            Event::BtnDown => Some((PageState::PgDatesetYear, Some(Move::DtsetYearDown))),
            _ => None,
        },
        PageState::PgDatesetMonth => match ev {
            Event::Alarm => Some((PageState::MenuAlarmed, Some(Move::AlarmTrigger))),
            Event::BtnUp => Some((PageState::PgDatesetMonth, Some(Move::DtsetMonthUp))),
            Event::BtnMid => Some((PageState::PgDatesetDay, None)),
            Event::BtnDown => Some((PageState::PgDatesetMonth, Some(Move::DtsetMonthDown))),
            _ => None,
        },
        PageState::PgDatesetDay => match ev {
            Event::Alarm => Some((PageState::MenuAlarmed, Some(Move::AlarmTrigger))),
            Event::BtnUp => Some((PageState::PgDatesetDay, Some(Move::DtsetDayUp))),
            Event::BtnMid => Some((PageState::PgDatesetHour, None)),
            Event::BtnDown => Some((PageState::PgDatesetDay, Some(Move::DtsetDayDown))),
            _ => None,
        },
        PageState::PgDatesetHour => match ev {
            Event::Alarm => Some((PageState::MenuAlarmed, Some(Move::AlarmTrigger))),
            Event::BtnUp => Some((PageState::PgDatesetHour, Some(Move::DtsetHourUp))),
            Event::BtnMid => Some((PageState::PgDatesetMin, None)),
            Event::BtnDown => Some((PageState::PgDatesetHour, Some(Move::DtsetHourDown))),
            _ => None,
        },
        PageState::PgDatesetMin => match ev {
            Event::Alarm => Some((PageState::MenuAlarmed, Some(Move::AlarmTrigger))),
            Event::BtnUp => Some((PageState::PgDatesetMin, Some(Move::DtsetMinUp))),
            Event::BtnMid => Some((PageState::MenuSettings, Some(Move::DtsetExit))),
            Event::BtnDown => Some((PageState::PgDatesetMin, Some(Move::DtsetMinDown))),
            _ => None,
        },
    }
}

/// The event can be handled in state `s` without a panic, given the clock's reading `now`.
pub open spec fn step_allowed(s: PageState, ev: Event, d: SharedData, now: DateTime) -> bool {
    step(s, ev) matches Some((_, Some(mv))) ==> move_allowed(mv, d, now)
}

/// `n` is the data `d` after the transition of event `ev` in state `s`: untouched when the state
/// ignores the event, else changed by the move and marked for redrawing.
pub open spec fn stepped_data(s: PageState, ev: Event, d: SharedData, now: DateTime, n: SharedData) -> bool {
    match step(s, ev) {
        None => n == d,
        Some((_, None)) => n == SharedData { update: true, ..d },
        Some((_, Some(mv))) => exists|m: SharedData| #[trigger]
            moved(mv, d, now, m) && n == SharedData { update: true, ..m },
    }
}

/// The outside work that the transition of event `ev` in state `s` asks for.
pub open spec fn step_request(s: PageState, ev: Event, d: SharedData) -> IoRequest {
    match step(s, ev) {
        Some((_, Some(mv))) => move_request(mv, d),
        _ => IoRequest::Nothing,
    }
}

/// The state after event `ev` in state `s`.
pub open spec fn next_state(s: PageState, ev: Event) -> PageState {
    match step(s, ev) {
        Some((goal, _)) => goal,
        None => s,
    }
}

impl Pages {
    /// The watch starts on the time page.
    pub fn new() -> (p: Pages)
        ensures
            p.state() == PageState::MenuTime,
            p.page() == Page::MenuTime,
    {
        Pages { curr_page: Page::MenuTime, curr_state: PageState::MenuTime }
    }

    /// Makes move `mv` on the data and says what outside work it needs.
    fn apply_move(mv: Move, data: &mut SharedData, now: &DateTime) -> (req: IoRequest)
        requires
            move_allowed(mv, *old(data), *now),
        ensures
            moved(mv, *old(data), *now, *final(data)),
            req == move_request(mv, *old(data)),
    {
        match mv {
            Move::AlarmTrigger => Self::mv_alarm_trigger(data),
            Move::AlarmReset => Self::mv_alarm_reset(data),
            Move::AlarmExit => Self::mv_alarm_exit(data),
            Move::AlarmModeUp => {
                Self::mv_alarm_modeup(data);
                IoRequest::Nothing
            },
            Move::AlarmModeDown => {
                Self::mv_alarm_modedown(data);
                IoRequest::Nothing
            },
            Move::AlarmDowUp => {
                Self::mv_alarm_dowup(data);
                IoRequest::Nothing
            },
            Move::AlarmDowDown => {
                Self::mv_alarm_dowdown(data);
                IoRequest::Nothing
            },
            Move::AlarmHourUp => {
                Self::mv_alarm_hourup(data);
                IoRequest::Nothing
            },
            Move::AlarmHourDown => {
                Self::mv_alarm_hourdown(data);
                IoRequest::Nothing
            },
            Move::AlarmMinUp => {
                Self::mv_alarm_minup(data);
                IoRequest::Nothing
            },
            Move::AlarmMinDown => {
                Self::mv_alarm_mindown(data);
                IoRequest::Nothing
            },
            Move::StopwatchExit => {
                Self::mv_stopwatch_exit(data);
                IoRequest::Nothing
            },
            Move::StopwatchStartStop => {
                Self::mv_stopwatch_startstop(data, now);
                IoRequest::Nothing
            },
            Move::StopwatchRstLap => {
                Self::mv_stopwatch_rstlap(data, now);
                IoRequest::Nothing
            },
            Move::DtsetExit => Self::mv_dtset_exit(data),
            Move::DtsetYearUp => {
                Self::mv_dtset_yearup(data);
                IoRequest::Nothing
            },
            Move::DtsetYearDown => {
                Self::mv_dtset_yeardown(data);
                IoRequest::Nothing
            },
            Move::DtsetMonthUp => {
                Self::mv_dtset_monthup(data);
                IoRequest::Nothing
            },
            Move::DtsetMonthDown => {
                Self::mv_dtset_monthdown(data);
                IoRequest::Nothing
            },
            Move::DtsetDayUp => {
                Self::mv_dtset_dayup(data);
                IoRequest::Nothing
            },
            Move::DtsetDayDown => {
                Self::mv_dtset_daydown(data);
                IoRequest::Nothing
            },
            Move::DtsetHourUp => {
                Self::mv_dtset_hourup(data);
                IoRequest::Nothing
            },
            Move::DtsetHourDown => {
                Self::mv_dtset_hourdown(data);
                IoRequest::Nothing
            },
            Move::DtsetMinUp => {
                Self::mv_dtset_minup(data);
                IoRequest::Nothing
            },
            Move::DtsetMinDown => {
                Self::mv_dtset_mindown(data);
                IoRequest::Nothing
            },
            Move::Snake => IoRequest::PlaySnake,
            Move::Video => IoRequest::PlayVideo,
        }
    }

    /// Goes to `goal_state`, which draws `pg`, after making move `trans`, and marks the data for
    /// redrawing.
    fn sm_step(
        &mut self,
        data: &mut SharedData,
        goal_state: PageState,
        pg: Page,
        trans: Option<Move>,
        now: &DateTime,
    ) -> (req: IoRequest)
        requires
            pg == page_of(goal_state),
            trans matches Some(mv) ==> move_allowed(mv, *old(data), *now),
        ensures
            final(self).state() == goal_state,
            trans is None ==> *final(data) == (SharedData { update: true, ..*old(data) }),
            trans is None ==> req == IoRequest::Nothing,
            trans matches Some(mv) ==> (exists|m: SharedData| #[trigger]
                moved(mv, *old(data), *now, m) && *final(data) == (SharedData { update: true, ..m })),
            trans matches Some(mv) ==> req == move_request(mv, *old(data)),
    {
        let req = match trans {
            Some(mv) => Self::apply_move(mv, data, now),
            None => IoRequest::Nothing,
        };
        *self = Pages { curr_page: pg, curr_state: goal_state };
        data.update = true;
        req
    }

    /// The row of the transition table for state `state` and event `ev`: the state it leads to,
    /// the page that state draws and the move made on the way.
    fn transition(state: PageState, ev: Event) -> (t: Option<(PageState, Page, Option<Move>)>)
        ensures
            t is None <==> step(state, ev) is None,
            t matches Some((goal, pg, mv)) ==> step(state, ev) == Some((goal, mv)) && pg == page_of(goal),
    {
        match state {
            PageState::MenuTime => match ev {
                Event::Alarm => Some((PageState::MenuAlarmed, Page::MenuAlarmed, Some(Move::AlarmTrigger))),
                Event::Minute => Some((PageState::MenuTime, Page::MenuTime, None)),
                Event::BtnUp => Some((PageState::MenuVideo, Page::MenuVideo, None)),
                Event::BtnDown => Some((PageState::MenuSettings, Page::MenuSettings, None)),
                _ => None,
            },
            PageState::MenuSettings => match ev {
                Event::Alarm => Some((PageState::MenuAlarmed, Page::MenuAlarmed, Some(Move::AlarmTrigger))),
                Event::BtnUp => Some((PageState::MenuTime, Page::MenuTime, None)),
                Event::BtnMid => Some((PageState::PgDatesetYear, Page::PgDtsetYear, None)),
                Event::BtnDown => Some((PageState::MenuAlarm, Page::MenuAlarm, None)),
                _ => None,
            },
            PageState::MenuAlarm => match ev {
                Event::Alarm => Some((PageState::MenuAlarmed, Page::MenuAlarmed, Some(Move::AlarmTrigger))),
                Event::BtnUp => Some((PageState::MenuSettings, Page::MenuSettings, None)),
                Event::BtnMid => Some((PageState::PgAlarmMode, Page::PgAlarmMode, None)),
                Event::BtnDown => Some((PageState::MenuStopwatch, Page::MenuStopwatch, None)),
                _ => None,
            },
            PageState::MenuStopwatch => match ev {
                Event::Alarm => Some((PageState::MenuAlarmed, Page::MenuAlarmed, Some(Move::AlarmTrigger))),
                Event::BtnUp => Some((PageState::MenuAlarm, Page::MenuAlarm, None)),
                Event::BtnMid => Some((PageState::PgStopwatch, Page::PgStopwatch, None)),
                Event::BtnDown => Some((PageState::MenuSnake, Page::MenuSnake, None)),
                _ => None,
            },
            PageState::MenuSnake => match ev {
                Event::Alarm => Some((PageState::MenuAlarmed, Page::MenuAlarmed, Some(Move::AlarmTrigger))),
                Event::BtnUp => Some((PageState::MenuStopwatch, Page::MenuStopwatch, None)),
                Event::BtnMid => Some((PageState::MenuSnake, Page::MenuSnake, Some(Move::Snake))),
                Event::BtnDown => Some((PageState::MenuVideo, Page::MenuVideo, None)),
                _ => None,
            },
            PageState::MenuVideo => match ev {
                Event::Alarm => Some((PageState::MenuAlarmed, Page::MenuAlarmed, Some(Move::AlarmTrigger))),
                Event::BtnUp => Some((PageState::MenuStopwatch, Page::MenuStopwatch, None)),
                Event::BtnMid => Some((PageState::MenuVideo, Page::MenuVideo, Some(Move::Video))),
                Event::BtnDown => Some((PageState::MenuTime, Page::MenuTime, None)),
                _ => None,
            },
            PageState::MenuAlarmed => match ev {
                Event::Alarm => Some((PageState::MenuAlarmed, Page::MenuAlarmed, Some(Move::AlarmTrigger))),
                Event::BtnMid => Some((PageState::MenuTime, Page::MenuTime, Some(Move::AlarmReset))),
                _ => None,
            },
            PageState::PgAlarmMode => match ev {
                Event::Alarm => Some((PageState::MenuAlarmed, Page::MenuAlarmed, Some(Move::AlarmTrigger))),
                Event::BtnUp => Some((PageState::PgAlarmMode, Page::PgAlarmMode, Some(Move::AlarmModeUp))),
                Event::BtnMid => Some((PageState::PgAlarmDow, Page::PgDtsetDow, None)),
                Event::BtnDown => Some((PageState::PgAlarmMode, Page::PgAlarmMode, Some(Move::AlarmModeDown))),
                _ => None,
            },
            PageState::PgAlarmDow => match ev {
                Event::Alarm => Some((PageState::MenuAlarmed, Page::MenuAlarmed, Some(Move::AlarmTrigger))),
                Event::BtnUp => Some((PageState::PgAlarmDow, Page::PgDtsetDow, Some(Move::AlarmDowUp))),
                Event::BtnMid => Some((PageState::PgAlarmHour, Page::PgDtsetHour, None)),
                Event::BtnDown => Some((PageState::PgAlarmDow, Page::PgDtsetDow, Some(Move::AlarmDowDown))),
                _ => None,
            },
            PageState::PgAlarmHour => match ev {
                Event::Alarm => Some((PageState::MenuAlarmed, Page::MenuAlarmed, Some(Move::AlarmTrigger))),
                Event::BtnUp => Some((PageState::PgAlarmHour, Page::PgDtsetHour, Some(Move::AlarmHourUp))),
                Event::BtnMid => Some((PageState::PgAlarmMin, Page::PgDtsetMin, None)),
                Event::BtnDown => Some((PageState::PgAlarmHour, Page::PgDtsetHour, Some(Move::AlarmHourDown))),
                _ => None,
            },
            PageState::PgAlarmMin => match ev {
                Event::Alarm => Some((PageState::MenuAlarmed, Page::MenuAlarmed, Some(Move::AlarmTrigger))),
                Event::BtnUp => Some((PageState::PgAlarmMin, Page::PgDtsetMin, Some(Move::AlarmMinUp))),
                Event::BtnMid => Some((PageState::MenuAlarm, Page::MenuAlarm, Some(Move::AlarmExit))),
                Event::BtnDown => Some((PageState::PgAlarmMin, Page::PgDtsetMin, Some(Move::AlarmMinDown))),
                _ => None,
            },
            PageState::PgStopwatch => match ev {
                Event::Alarm => Some((PageState::MenuAlarmed, Page::MenuAlarmed, Some(Move::StopwatchExit))),
                Event::BtnUp => Some((PageState::PgStopwatch, Page::PgStopwatch, Some(Move::StopwatchStartStop))),
                Event::BtnMid => Some((PageState::MenuStopwatch, Page::MenuStopwatch, Some(Move::StopwatchExit))),
                Event::BtnDown => Some((PageState::PgStopwatch, Page::PgStopwatch, Some(Move::StopwatchRstLap))),
                _ => None,
            },
            PageState::PgDatesetYear => match ev {
                Event::Alarm => Some((PageState::MenuAlarmed, Page::MenuAlarmed, Some(Move::AlarmTrigger))),
                Event::BtnUp => Some((PageState::PgDatesetYear, Page::PgDtsetYear, Some(Move::DtsetYearUp))),
                Event::BtnMid => Some((PageState::PgDatesetMonth, Page::PgDtsetMonth, None)),
                Event::BtnDown => Some((PageState::PgDatesetYear, Page::PgDtsetYear, Some(Move::DtsetYearDown))),
                _ => None,
            },
            PageState::PgDatesetMonth => match ev {
                Event::Alarm => Some((PageState::MenuAlarmed, Page::MenuAlarmed, Some(Move::AlarmTrigger))),
                Event::BtnUp => Some((PageState::PgDatesetMonth, Page::PgDtsetMonth, Some(Move::DtsetMonthUp))),
                Event::BtnMid => Some((PageState::PgDatesetDay, Page::PgDtsetDay, None)),
                Event::BtnDown => Some((PageState::PgDatesetMonth, Page::PgDtsetMonth, Some(Move::DtsetMonthDown))),
                _ => None,
            },
            PageState::PgDatesetDay => match ev {
                Event::Alarm => Some((PageState::MenuAlarmed, Page::MenuAlarmed, Some(Move::AlarmTrigger))),
                Event::BtnUp => Some((PageState::PgDatesetDay, Page::PgDtsetDay, Some(Move::DtsetDayUp))),
                Event::BtnMid => Some((PageState::PgDatesetHour, Page::PgDtsetHour, None)),
                Event::BtnDown => Some((PageState::PgDatesetDay, Page::PgDtsetDay, Some(Move::DtsetDayDown))),
                _ => None,
            },
            PageState::PgDatesetHour => match ev {
                Event::Alarm => Some((PageState::MenuAlarmed, Page::MenuAlarmed, Some(Move::AlarmTrigger))),
                Event::BtnUp => Some((PageState::PgDatesetHour, Page::PgDtsetHour, Some(Move::DtsetHourUp))),
                Event::BtnMid => Some((PageState::PgDatesetMin, Page::PgDtsetMin, None)),
                Event::BtnDown => Some((PageState::PgDatesetHour, Page::PgDtsetHour, Some(Move::DtsetHourDown))),
                _ => None,
            },
            PageState::PgDatesetMin => match ev {
                Event::Alarm => Some((PageState::MenuAlarmed, Page::MenuAlarmed, Some(Move::AlarmTrigger))),
                Event::BtnUp => Some((PageState::PgDatesetMin, Page::PgDtsetMin, Some(Move::DtsetMinUp))),
                Event::BtnMid => Some((PageState::MenuSettings, Page::MenuSettings, Some(Move::DtsetExit))),
                Event::BtnDown => Some((PageState::PgDatesetMin, Page::PgDtsetMin, Some(Move::DtsetMinDown))),
                _ => None,
            },
        }
    }

    /// Handles event `ev`: follows the transition table, makes the transition's move on the
    /// data, and returns the outside work the move asks for. `now` is the clock's reading, which
    /// only the stopwatch reads. The page to draw afterwards is `curr_page`; `step_and_draw`
    /// handles the event and draws it.
    pub fn update_page(&mut self, ev: Event, data: &mut SharedData, now: &DateTime) -> (req: IoRequest)
        requires
            step_allowed(old(self).state(), ev, *old(data), *now),
        ensures
            final(self).state() == next_state(old(self).state(), ev),
            final(self).page() == page_of(final(self).state()),
            stepped_data(old(self).state(), ev, *old(data), *now, *final(data)),
            req == step_request(old(self).state(), ev, *old(data)),
    {
        let req = match Self::transition(self.curr_state, ev) {
            Some((goal, pg, mv)) => self.sm_step(data, goal, pg, mv, now),
            None => IoRequest::Nothing,
        };
        proof {
            use_type_invariant(&*self);
        }
        req
    }
}

} // verus!
