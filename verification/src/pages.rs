use vstd::prelude::*;

pub mod state;
pub mod core_pages;
pub mod pages;
pub mod laws;
pub mod snake;
pub mod draw;

verus! {

use crate::pages::state::PageState;

/// The page that is drawn.
#[derive(Clone, Copy, Debug, PartialEq, Eq, Structural)]
pub enum Page {
    MenuTime,
    MenuSettings,
    MenuAlarm,
    MenuStopwatch,
    MenuSnake,
    MenuVideo,
    MenuAlarmed,
    PgAlarmMode,
    PgStopwatch,
    PgDtsetYear,
    PgDtsetMonth,
    PgDtsetDay,
    PgDtsetDow,
    PgDtsetHour,
    PgDtsetMin,
}

/// The page drawn in each state: the alarm and the clock settings share the pages for the hour
/// and the minute.
pub open spec fn page_of(s: PageState) -> Page {
    match s {
        PageState::MenuTime => Page::MenuTime,
        PageState::MenuSettings => Page::MenuSettings,
        PageState::MenuAlarm => Page::MenuAlarm,
        PageState::MenuStopwatch => Page::MenuStopwatch,
        PageState::MenuSnake => Page::MenuSnake,
        PageState::MenuVideo => Page::MenuVideo,
        PageState::MenuAlarmed => Page::MenuAlarmed,
        PageState::PgAlarmMode => Page::PgAlarmMode,
        PageState::PgAlarmDow => Page::PgDtsetDow,
        PageState::PgAlarmHour => Page::PgDtsetHour,
        PageState::PgAlarmMin => Page::PgDtsetMin,
        PageState::PgStopwatch => Page::PgStopwatch,
        PageState::PgDatesetYear => Page::PgDtsetYear,
        PageState::PgDatesetMonth => Page::PgDtsetMonth,
        PageState::PgDatesetDay => Page::PgDtsetDay,
        PageState::PgDatesetHour => Page::PgDtsetHour,
        PageState::PgDatesetMin => Page::PgDtsetMin,
    }
}

/// The page state machine: the current state and the page it draws.
pub struct Pages {
    curr_page: Page,
    curr_state: PageState,
}

impl Pages {
    #[verifier::type_invariant]
    closed spec fn inv(&self) -> bool {
        self.curr_page == page_of(self.curr_state)
    }

    /// The current state.
    pub closed spec fn state(&self) -> PageState {
        self.curr_state
    }

    /// The page that the current state draws.
    pub closed spec fn page(&self) -> Page {
        self.curr_page
    }

    /// The current state.
    pub fn curr_state(&self) -> (s: PageState)
        ensures
            s == self.state(),
    {
        self.curr_state
    }

    /// The page to draw, that of the current state.
    pub fn curr_page(&self) -> (p: Page)
        ensures
            p == self.page(),
            p == page_of(self.state()),
    {
        proof {
            use_type_invariant(self);
        }
        self.curr_page
    }
}

} // verus!
