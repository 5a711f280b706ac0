use vstd::prelude::*;
use crate::io::{DateTime, Event, days_in_month, valid_date};
use crate::pages::state::PageState;
use crate::pages::pages::{step, step_allowed, stepped_data, next_state};
use crate::pages::core_pages::{Move, moved, move_allowed, month_days, mode_after, mode_before};
use crate::shared_data::SharedData;

verus! {

/// Settings in range, a clock reading that is a valid date and time: every event can be handled
/// in every state.
pub proof fn lemma_wf_steps_allowed(s: PageState, ev: Event, d: SharedData, now: DateTime)
    requires
        d.wf(),
        now.valid(),
    ensures
        step_allowed(s, ev, d, now),
{
}

/// Every move keeps the settings in the ranges the pages cycle through, and at most four laps.
pub proof fn lemma_move_keeps_wf(mv: Move, d: SharedData, now: DateTime, n: SharedData)
    requires
        d.wf(),
        now.valid(),
        moved(mv, d, now, n),
    ensures
        n.wf(),
{
}

/// Handling an event keeps the settings in range.
pub proof fn lemma_update_keeps_wf(s: PageState, ev: Event, d: SharedData, now: DateTime, n: SharedData)
    requires
        d.wf(),
        now.valid(),
        stepped_data(s, ev, d, now, n),
    ensures
        n.wf(),
{
    match step(s, ev) {
        Some((_, Some(mv))) => {
            let m = choose|m: SharedData| #[trigger] moved(mv, d, now, m) && n == (SharedData { update: true, ..m });
            lemma_move_keeps_wf(mv, d, now, m);
        },
        _ => {},
    }
}

/// The alarm leads to the alarm page from every state.
pub proof fn lemma_alarm_from_everywhere(s: PageState)
    ensures
        next_state(s, Event::Alarm) == PageState::MenuAlarmed,
{
}

/// No event changes nothing.
pub proof fn lemma_no_event_ignored(s: PageState)
    ensures
        step(s, Event::NoEvent) is None,
{
}

/// The menus of the main loop: time, settings, alarm, stopwatch, snake and video.
pub open spec fn is_menu(s: PageState) -> bool {
    s == PageState::MenuTime || s == PageState::MenuSettings || s == PageState::MenuAlarm || s
        == PageState::MenuStopwatch || s == PageState::MenuSnake || s == PageState::MenuVideo
}

/// In the menus, down goes back where up came from, except from the video menu, whose up leads
/// past the snake menu to the stopwatch menu.
pub proof fn lemma_menu_up_then_down(s: PageState)
    requires
        is_menu(s),
        s != PageState::MenuVideo,
    ensures
        is_menu(next_state(s, Event::BtnUp)),
        next_state(next_state(s, Event::BtnUp), Event::BtnDown) == s,
{
}

/// In the menus, up goes back where down came from, except from the snake menu.
pub proof fn lemma_menu_down_then_up(s: PageState)
    requires
        is_menu(s),
        s != PageState::MenuSnake,
    ensures
        is_menu(next_state(s, Event::BtnDown)),
        next_state(next_state(s, Event::BtnDown), Event::BtnUp) == s,
{
}

/// The moves that count a setting up, each with the move that counts it down.
pub open spec fn up_down_pair(up: Move, down: Move) -> bool {
    ||| up == Move::AlarmModeUp && down == Move::AlarmModeDown
    ||| up == Move::AlarmDowUp && down == Move::AlarmDowDown
    ||| up == Move::AlarmHourUp && down == Move::AlarmHourDown
    ||| up == Move::AlarmMinUp && down == Move::AlarmMinDown
    ||| up == Move::DtsetYearUp && down == Move::DtsetYearDown
    ||| up == Move::DtsetMonthUp && down == Move::DtsetMonthDown
    ||| up == Move::DtsetDayUp && down == Move::DtsetDayDown
    ||| up == Move::DtsetHourUp && down == Move::DtsetHourDown
    ||| up == Move::DtsetMinUp && down == Move::DtsetMinDown
}

/// Counting a setting up and then down gives back the setting, and so does counting down and
/// then up; for the day, as long as it does not exceed the month's length.
pub proof fn lemma_up_down_inverse(
    up: Move,
    down: Move,
    d: SharedData,
    now: DateTime,
    d1: SharedData,
    d2: SharedData,
    e1: SharedData,
    e2: SharedData,
)
    requires
        up_down_pair(up, down),
        d.wf(),
        up == Move::DtsetDayUp ==> d.day <= month_days(d.month as int),
        moved(up, d, now, d1),
        moved(down, d1, now, d2),
        moved(down, d, now, e1),
        moved(up, e1, now, e2),
    ensures
        d2 == d,
        e2 == d,
{
    assert(mode_before(mode_after(d.mode)) == d.mode);
    assert(mode_after(mode_before(d.mode)) == d.mode);
}

/// Leaving the stopwatch clears its laps.
pub proof fn lemma_stopwatch_exit_clears(d: SharedData, now: DateTime, n: SharedData)
    requires
        moved(Move::StopwatchExit, d, now, n),
    ensures
        n.laps@ == seq![0i64, 0, 0, 0],
        n.lap_index == 0,
{
}

/// The state after `n` presses of the middle button from `s`.
pub open spec fn mid_presses(s: PageState, n: nat) -> PageState
    decreases n,
{
    if n == 0 {
        s
    } else {
        mid_presses(next_state(s, Event::BtnMid), (n - 1) as nat)
    }
}

/// The pages that the middle button opens from a menu: the five of the clock setting, the four
/// of the alarm setting, the stopwatch.
pub open spec fn opened_pages(s: PageState) -> nat {
    if s == PageState::MenuSettings {
        5
    } else if s == PageState::MenuAlarm {
        4
    } else {
        1
    }
}

/// The middle button opens the pages of the clock setting, the alarm setting and the stopwatch
/// and leads through them; after the last one it leads back to the menu they were opened from.
/// In particular the stopwatch's exit button returns to the stopwatch menu.
pub proof fn lemma_middle_button_returns(s: PageState)
    requires
        s == PageState::MenuSettings || s == PageState::MenuAlarm || s == PageState::MenuStopwatch,
    ensures
        mid_presses(s, opened_pages(s) + 1) == s,
        forall|j: nat|
            1 <= j <= opened_pages(s) ==> !is_menu(#[trigger] mid_presses(s, j)) && mid_presses(
                s,
                j,
            ) != PageState::MenuAlarmed,
        next_state(PageState::PgStopwatch, Event::BtnMid) == PageState::MenuStopwatch,
{
    reveal_with_fuel(mid_presses, 7);
    assert forall|j: nat|
        1 <= j <= opened_pages(s) implies !is_menu(#[trigger] mid_presses(s, j)) && mid_presses(
        s,
        j,
    ) != PageState::MenuAlarmed by {
        assert(j == 1 || j == 2 || j == 3 || j == 4 || j == 5);
    }
}

/// The day setting counts through the days that month `month` (0 = January) has in the
/// calendar of any year; February is taken to have 28 days.
pub proof fn lemma_month_days_calendar(year: int, month: int)
    requires
        0 <= month < 12,
    ensures
        month == 1 ==> month_days(month) == 28 && days_in_month(year, 2) >= 28,
        month != 1 ==> month_days(month) == days_in_month(year, month + 1),
{
}

/// Counting the day up or down from a day that the month has gives a date of the calendar.
pub proof fn lemma_day_moves_give_dates(mv: Move, d: SharedData, now: DateTime, n: SharedData)
    requires
        d.wf(),
        mv == Move::DtsetDayUp || mv == Move::DtsetDayDown,
        d.day <= month_days(d.month as int),
        moved(mv, d, now, n),
    ensures
        valid_date(n.year as int, n.month + 1, n.day as int),
        1 <= n.day <= month_days(n.month as int),
{
    lemma_month_days_calendar(n.year as int, n.month as int);
}

} // verus!
