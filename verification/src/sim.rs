use vstd::prelude::*;
use crate::io::{DateTime, Event, default_datetime};
use crate::io::text::{
    ascii, ascii_to_string, decimal, decimal2, day_name, month_name, time_text, push_decimal,
    push_decimal2, push_day_name, push_month_name, all_ascii,
};

verus! {

/// The event that a number typed at the desktop stand-in stands for: 1 the minute tick, 2 the
/// alarm, 3 to 5 the buttons up, middle and down; anything else no event.
pub open spec fn code_event(code: int) -> Event {
    if code == 1 {
        Event::Minute
    } else if code == 2 {
        Event::Alarm
    } else if code == 3 {
        Event::BtnUp
    } else if code == 4 {
        Event::BtnMid
    } else if code == 5 {
        Event::BtnDown
    } else {
        Event::NoEvent
    }
}

/// The clock of the desktop stand-in for the watch's inputs: a date and time that the minute
/// ticks typed at the terminal advance.
pub struct Io {
    pub year: u16,
    pub month: u8,
    pub day: u8,
    pub hour: u8,
    pub minute: u8,
}

impl Io {
    /// The clock at 2025-01-01 12:00.
    pub fn new() -> (io: Io)
        ensures
            io == (Io { year: 2025, month: 1, day: 1, hour: 12, minute: 0 }),
    {
        Io { year: 2025, month: 1, day: 1, hour: 12, minute: 0 }
    }

    /// Handles the number typed at the terminal: a minute tick advances the clock first.
    pub fn input_event(&mut self, code: i32) -> (ev: Event)
        requires
            code == 1 ==> old(self).minute < 255 && old(self).day < 255,
        ensures
            ev == code_event(code as int),
            code == 1 ==> *final(self) == old(self).ticked(),
            code != 1 ==> *final(self) == *old(self),
    {
        if code == 1 {
            self.inc_clock();
        }
        match code {
            1 => Event::Minute,
            2 => Event::Alarm,
            3 => Event::BtnUp,
            4 => Event::BtnMid,
            5 => Event::BtnDown,
            _ => Event::NoEvent,
        }
    }

    /// The clock one minute later: the minute wraps at 60 and then moves the hour, which wraps
    /// at 24; while the hour reads 0 every tick moves the day, which wraps at 28.
    pub open spec fn ticked(self) -> Io {
        let minute = ((self.minute + 1) % 60) as u8;
        let hour = if minute == 0 {
            ((self.hour + 1) % 24) as u8
        } else {
            self.hour
        };
        let day = if hour == 0 {
            ((self.day + 1) % 28) as u8
        } else {
            self.day
        };
        Io { year: self.year, month: self.month, day, hour, minute }
    }

    /// Advances the clock by one minute.
    pub fn inc_clock(&mut self)
        requires
            old(self).minute < 255,
            old(self).day < 255,
        ensures
            *final(self) == old(self).ticked(),
    {
        self.minute = (self.minute + 1) % 60;
        if self.minute == 0 {
            self.hour = ((self.hour as u16 + 1) % 24) as u8;
        }
        if self.hour == 0 {
            self.day = (self.day + 1) % 28;
        }
    }

    /// What the stand-in reports as the current date and time: always 2025-01-01 12:00:00.
    pub fn get_datetime(&self) -> (t: DateTime)
        ensures
            t == (DateTime { year: 2025, month: 1, day: 1, hour: 12, minute: 0, second: 0 }),
    {
        default_datetime()
    }

    /// Sets the clock; always succeeds.
    pub fn set_datetime(&mut self, dy: u16, dm: u8, dd: u8, h: u8, m: u8) -> (ok: bool)
        ensures
            ok,
            *final(self) == (Io { year: dy, month: dm, day: dd, hour: h, minute: m }),
    {
        self.year = dy;
        self.month = dm;
        self.day = dd;
        self.hour = h;
        self.minute = m;
        return true;
    }

    /// `hh:mm`.
    pub fn get_time_str(&self) -> (s: String)
        ensures
            s@ == ascii(time_text(self.hour as nat, self.minute as nat)),
    {
        let t = DateTime {
            year: 2025,
            month: 1,
            day: 1,
            hour: self.hour as u32,
            minute: self.minute as u32,
            second: 0,
        };
        crate::io::text::get_time_str(&t)
    }

    /// The day of the week, counting the day of the month from Monday.
    pub fn get_dow_str(&self) -> (s: String)
        ensures
            s@ == ascii(day_name(self.day as int % 7)),
    {
        let mut out: Vec<u8> = Vec::new();
        push_day_name(&mut out, (self.day % 7) as u32);
        proof {
            assert(out@ == day_name(self.day as int % 7));
        }
        ascii_to_string(out)
    }

    /// The day of the month and the name of month `month % 12` (0 = January).
    pub fn get_date_str(&self) -> (s: String)
        ensures
            s@ == ascii(decimal(self.day as nat) + seq![32u8] + month_name(self.month as int % 12)),
    {
        let t = DateTime {
            year: 2025,
            month: (self.month % 12) as u32 + 1,
            day: self.day as u32,
            hour: 0,
            minute: 0,
            second: 0,
        };
        crate::io::text::get_date_str(&t)
    }
}

} // verus!
