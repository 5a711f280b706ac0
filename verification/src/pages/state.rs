use vstd::prelude::*;

verus! {

/// The states of the watch's menus and pages.
#[derive(Clone, Copy, Debug, PartialEq, Eq, Structural)]
pub enum PageState {
    MenuTime,
    MenuSettings,
    MenuAlarm,
    MenuStopwatch,
    MenuSnake,
    MenuVideo,
    MenuAlarmed,
    PgAlarmMode,
    PgAlarmDow,
    PgAlarmHour,
    PgAlarmMin,
    PgStopwatch,
    PgDatesetYear,
    PgDatesetMonth,
    PgDatesetDay,
    PgDatesetHour,
    PgDatesetMin,
}

} // verus!
