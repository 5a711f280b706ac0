use vstd::prelude::*;
use circular_buffer::CircularBuffer;
use chrono::{Datelike, NaiveDate, NaiveDateTime, NaiveTime};

pub mod text;

verus! {

/// Something that happened: the minute ticked, the alarm went off, or a button was pressed.
#[derive(Clone, Copy, Debug, PartialEq, Eq, Structural)]
pub enum Event {
    NoEvent,
    Minute,
    Alarm,
    BtnUp,
    BtnMid,
    BtnDown,
}

/// A calendar date and a time of day, as the clock chip reports them.
#[derive(Clone, Copy, Debug, PartialEq, Eq, Structural)]
pub struct DateTime {
    pub year: i32,
    pub month: u32,
    pub day: u32,
    pub hour: u32,
    pub minute: u32,
    pub second: u32,
}

/// First and last year of the calendar that `chrono` represents.
pub open spec fn min_calendar_year() -> int {
    -262143
}

pub open spec fn max_calendar_year() -> int {
    262142
}

/// Leap years of the proleptic Gregorian calendar.
pub open spec fn is_leap_year(year: int) -> bool {
    (year % 4 == 0 && year % 100 != 0) || year % 400 == 0
}

/// Days in month `month` (1 = January) of `year`.
pub open spec fn days_in_month(year: int, month: int) -> int {
    if month == 2 {
        if is_leap_year(year) {
            29
        } else {
            28
        }
    } else if month == 4 || month == 6 || month == 9 || month == 11 {
        30
    } else {
        31
    }
}

/// `year-month-day` names a day of the calendar.
pub open spec fn valid_date(year: int, month: int, day: int) -> bool {
    &&& min_calendar_year() <= year <= max_calendar_year()
    &&& 1 <= month <= 12
    &&& 1 <= day <= days_in_month(year, month)
}

/// `hour:minute:second` names a time of day.
pub open spec fn valid_time(hour: int, minute: int, second: int) -> bool {
    0 <= hour < 24 && 0 <= minute < 60 && 0 <= second < 60
}

impl DateTime {
    /// A date of the calendar and a time of day.
    pub open spec fn valid(self) -> bool {
        valid_date(self.year as int, self.month as int, self.day as int) && valid_time(
            self.hour as int,
            self.minute as int,
            self.second as int,
        )
    }
}

/// Days from 1970-01-01 to `year-month-day` in the proleptic Gregorian calendar (negative
/// before it): whole 400-year eras of 146097 days, then the years of the era counted from March
/// with their leap days, then the days of the year from March 1.
pub open spec fn days_from_civil(year: int, month: int, day: int) -> int {
    let y = if month <= 2 {
        year - 1
    } else {
        year
    };
    let yoe = y % 400;
    let doy = (153 * ((month + 9) % 12) + 2) / 5 + day - 1;
    (y / 400) * 146097 + yoe * 365 + yoe / 4 - yoe / 100 + doy - 719468
}

/// The day of the week of a date, 0 for Monday to 6 for Sunday: 1970-01-01 was a Thursday.
pub open spec fn weekday_from_monday(year: int, month: int, day: int) -> int {
    (days_from_civil(year, month, day) + 3) % 7
}

/// Seconds of the day at `t`.
pub open spec fn seconds_of_day(t: DateTime) -> int {
    t.hour * 3600 + t.minute * 60 + t.second
}

/// Seconds from `earlier` to `later`, negative when `later` comes first.
pub open spec fn seconds_between(later: DateTime, earlier: DateTime) -> int {
    (days_from_civil(later.year as int, later.month as int, later.day as int) - days_from_civil(
        earlier.year as int,
        earlier.month as int,
        earlier.day as int,
    )) * 86400 + seconds_of_day(later) - seconds_of_day(earlier)
}



/// `chrono::NaiveDate::from_ymd_opt`: some date exactly when the calendar has that day.
#[verifier::external_body]
pub(crate) fn date_exists(year: i32, month: u32, day: u32) -> (r: bool)
    ensures
        r == valid_date(year as int, month as int, day as int),
{
    NaiveDate::from_ymd_opt(year, month, day).is_some()
}

/// `chrono::NaiveTime::from_hms_opt`: some time exactly when hour, minute and second are in range.
#[verifier::external_body]
pub(crate) fn time_exists(hour: u32, minute: u32, second: u32) -> (r: bool)
    ensures
        r == valid_time(hour as int, minute as int, second as int),
{
    NaiveTime::from_hms_opt(hour, minute, second).is_some()
}

/// `chrono::Datelike::weekday` of the date, then `num_days_from_monday`: the day of the week of
/// the date in the proleptic Gregorian calendar, 0 (Monday) to 6.
#[verifier::external_body]
pub(crate) fn weekday_of(year: i32, month: u32, day: u32) -> (r: u32)
    requires
        valid_date(year as int, month as int, day as int),
    ensures
        r == weekday_from_monday(year as int, month as int, day as int),
        r < 7,
{
    NaiveDate::from_ymd_opt(year, month, day).unwrap().weekday().num_days_from_monday()
}

/// The two date-times as `chrono::NaiveDateTime`, subtracted, in whole seconds
/// (`TimeDelta::num_seconds`): the exact number of seconds between them, as the date-times
/// carry no fraction of a second.
#[verifier::external_body]
pub(crate) fn seconds_since(later: &DateTime, earlier: &DateTime) -> (r: i64)
    requires
        later.valid(),
        earlier.valid(),
    ensures
        r == seconds_between(*later, *earlier),
{
    let a = NaiveDateTime::new(
        NaiveDate::from_ymd_opt(later.year, later.month, later.day).unwrap(),
        NaiveTime::from_hms_opt(later.hour, later.minute, later.second).unwrap(),
    );
    let b = NaiveDateTime::new(
        NaiveDate::from_ymd_opt(earlier.year, earlier.month, earlier.day).unwrap(),
        NaiveTime::from_hms_opt(earlier.hour, earlier.minute, earlier.second).unwrap(),
    );
    (a - b).num_seconds()
}

/// The date and time that `set_datetime` writes to the clock chip: the given day at
/// `h:m:00`, or none when no such day or time exists.
pub fn datetime_for_clock(dy: u16, dm: u8, dd: u8, h: u8, m: u8) -> (r: Option<DateTime>)
    ensures
        r is Some <==> valid_date(dy as int, dm as int, dd as int) && valid_time(
            h as int,
            m as int,
            0,
        ),
        r matches Some(t) ==> t == (DateTime {
            year: dy as i32,
            month: dm as u32,
            day: dd as u32,
            hour: h as u32,
            minute: m as u32,
            second: 0,
        }),
{
    let date_ok = date_exists(dy as i32, dm as u32, dd as u32);
    let time_ok = time_exists(h as u32, m as u32, 0);
    if !date_ok || !time_ok {
        return None;
    }
    Some(DateTime {
        year: dy as i32,
        month: dm as u32,
        day: dd as u32,
        hour: h as u32,
        minute: m as u32,
        second: 0,
    })
}

/// What the clock reads when it cannot be asked: 2025-01-01 12:00:00.
pub fn default_datetime() -> (r: DateTime)
    ensures
        r == (DateTime { year: 2025, month: 1, day: 1, hour: 12, minute: 0, second: 0 }),
        r.valid(),
{
    DateTime { year: 2025, month: 1, day: 1, hour: 12, minute: 0, second: 0 }
}

/// The event that the clock chip's flags report: the alarm when it matched, else the minute
/// tick when it matched, else none. `None` stands for a flag that could not be read.
pub fn check_rtc(alarm1_matched: Option<bool>, alarm2_matched: Option<bool>) -> (ev: Event)
    ensures
        ev == (if alarm1_matched == Some(true) {
            Event::Alarm
        } else if alarm2_matched == Some(true) {
            Event::Minute
        } else {
            Event::NoEvent
        }),
{
    match alarm1_matched {
        Some(x) => {
            if x {
                return Event::Alarm;
            }
        },
        None => {},
    }
    match alarm2_matched {
        Some(x) => {
            if x {
                return Event::Minute;
            }
        },
        None => {},
    }
    return Event::NoEvent;
}

/// `circular_buffer::CircularBuffer`, declared for the event queue; its contents are
/// `buffered_events`.
/// Whether the minute tick's flag is to be read: only when the alarm's flag was not seen set.
pub fn alarm2_needed(alarm1_matched: Option<bool>) -> (r: bool)
    ensures
        r == (alarm1_matched != Some(true)),
{
    match alarm1_matched {
        Some(x) => !x,
        None => true,
    }
}

/// The clock chip's flags to clear once read, `(alarm, minute tick)`: the alarm's when it was
/// set, else the minute tick's when it was set.
pub fn rtc_flags_to_clear(alarm1_matched: Option<bool>, alarm2_matched: Option<bool>) -> (r: (
    bool,
    bool,
))
    ensures
        r == (alarm1_matched == Some(true), alarm1_matched != Some(true) && alarm2_matched == Some(
            true,
        )),
{
    let clear1 = match alarm1_matched {
        Some(x) => x,
        None => false,
    };
    let clear2 = !clear1 && match alarm2_matched {
        Some(x) => x,
        None => false,
    };
    (clear1, clear2)
}

#[verifier::external_type_specification]
#[verifier::external_body]
#[verifier::reject_recursive_types(T)]
pub struct ExCircularBuffer<const N: usize, T>(CircularBuffer<N, T>);

/// The events a buffer of five holds, oldest first.
pub uninterp spec fn buffered_events(b: CircularBuffer<5, Event>) -> Seq<Event>;

/// `CircularBuffer::new`: an empty buffer.
#[verifier::external_body]
fn event_buffer_new() -> (b: CircularBuffer<5, Event>)
    ensures
        buffered_events(b) == Seq::<Event>::empty(),
{
    CircularBuffer::new()
}

/// `CircularBuffer::push_back`: appends `ev`; a full buffer first drops and returns its oldest
/// event.
#[verifier::external_body]
fn event_buffer_push_back(b: &mut CircularBuffer<5, Event>, ev: Event) -> (r: Option<Event>)
    requires
        buffered_events(*old(b)).len() <= 5,
    ensures
        buffered_events(*old(b)).len() < 5 ==> buffered_events(*final(b)) == buffered_events(
            *old(b),
        ).push(ev) && r == None::<Event>,
        buffered_events(*old(b)).len() == 5 ==> buffered_events(*final(b)) == buffered_events(
            *old(b),
        ).drop_first().push(ev) && r == Some(buffered_events(*old(b))[0]),
    no_unwind
{
    b.push_back(ev)
}

/// `CircularBuffer::pop_front`: removes and returns the oldest event, none when empty.
#[verifier::external_body]
fn event_buffer_pop_front(b: &mut CircularBuffer<5, Event>) -> (r: Option<Event>)
    ensures
        buffered_events(*old(b)).len() == 0 ==> r == None::<Event> && buffered_events(*final(b))
            == buffered_events(*old(b)),
        buffered_events(*old(b)).len() > 0 ==> r == Some(buffered_events(*old(b))[0])
            && buffered_events(*final(b)) == buffered_events(*old(b)).drop_first(),
    no_unwind
{
    b.pop_front()
}

/// `CircularBuffer::front`, tested for an event: whether the buffer holds any.
#[verifier::external_body]
fn event_buffer_has_front(b: &CircularBuffer<5, Event>) -> (r: bool)
    ensures
        r == (buffered_events(*b).len() > 0),
{
    b.front().is_some()
}

/// What comes of pushing `ev` onto a buffer of at most five events: the oldest goes when full.
pub open spec fn pushed(events: Seq<Event>, ev: Event) -> Seq<Event> {
    if events.len() < 5 {
        events.push(ev)
    } else {
        events.drop_first().push(ev)
    }
}

/// The events that an interrupt records: the clock's event when the alarm line was low, then
/// each button that was held, in the order up, middle, down.
pub open spec fn interrupt_events(alarm: Option<Event>, up: bool, mid: bool, dwn: bool) -> Seq<Event> {
    (if alarm is Some {
        seq![alarm.unwrap()]
    } else {
        Seq::<Event>::empty()
    }) + (if up {
        seq![Event::BtnUp]
    } else {
        Seq::<Event>::empty()
    }) + (if mid {
        seq![Event::BtnMid]
    } else {
        Seq::<Event>::empty()
    }) + (if dwn {
        seq![Event::BtnDown]
    } else {
        Seq::<Event>::empty()
    })
}

/// Pushing the events of `evs` one after the other.
pub open spec fn pushed_all(events: Seq<Event>, evs: Seq<Event>) -> Seq<Event>
    decreases evs.len(),
{
    if evs.len() == 0 {
        events
    } else {
        pushed(pushed_all(events, evs.drop_last()), evs.last())
    }
}

/// The first of the five most recent events among `n`.
pub open spec fn newest_five_start(n: int) -> int {
    if n > 5 {
        n - 5
    } else {
        0
    }
}

/// The queue keeps the five most recent events, oldest first: pushing the events `evs` one after
/// the other onto a queue of at most five leaves the last five of the queued events followed by
/// `evs`.
pub proof fn lemma_queue_keeps_newest(events: Seq<Event>, evs: Seq<Event>)
    requires
        events.len() <= 5,
    ensures
        pushed_all(events, evs) == (events + evs).subrange(
            newest_five_start((events.len() + evs.len()) as int),
            (events.len() + evs.len()) as int,
        ),
    decreases evs.len(),
{
    let all = events + evs;
    let n = all.len() as int;
    if evs.len() == 0 {
        assert(all =~= events);
        assert(all.subrange(0, n) =~= events);
    } else {
        let init = evs.drop_last();
        lemma_queue_keeps_newest(events, init);
        let before = (events + init).subrange(newest_five_start(n - 1), n - 1);
        assert(events + init =~= all.subrange(0, n - 1));
        assert(before =~= all.subrange(newest_five_start(n - 1), n - 1));
        assert(all[n - 1] == evs.last());
        if n - 1 < 5 {
            assert(before.push(evs.last()) =~= all.subrange(0, n));
        } else {
            assert(before.drop_first().push(evs.last()) =~= all.subrange(n - 5, n));
        }
    }
}

/// The queue of events that the interrupt handler fills and the main loop empties: it keeps
/// the five most recent events.
pub struct Io {
    buffer: CircularBuffer<5, Event>,
}

impl View for Io {
    type V = Seq<Event>;

    /// The queued events, oldest first.
    closed spec fn view(&self) -> Seq<Event> {
        buffered_events(self.buffer)
    }
}

impl Io {
    #[verifier::type_invariant]
    closed spec fn inv(&self) -> bool {
        buffered_events(self.buffer).len() <= 5
    }

    /// An empty queue.
    pub fn new() -> (io: Io)
        ensures
            io@ == Seq::<Event>::empty(),
    {
        Io { buffer: event_buffer_new() }
    }

    /// Appends `ev`, dropping the oldest event when five are queued.
    pub fn push_event(&mut self, ev: Event)
        ensures
            final(self)@ == pushed(old(self)@, ev),
            final(self)@.len() <= 5,
    {
        proof {
            use_type_invariant(&*self);
        }
        let _ = event_buffer_push_back(&mut self.buffer, ev);
    }

    /// Records what the interrupt saw: `alarm` is the clock's event when the alarm line was low,
    /// and each flag tells whether that button was held.
    pub fn record_inputs(&mut self, alarm: Option<Event>, btn_up: bool, btn_mid: bool, btn_dwn: bool)
        ensures
            final(self)@ == pushed_all(old(self)@, interrupt_events(alarm, btn_up, btn_mid, btn_dwn)),
    {
        let ghost e0 = self@;
        let ghost a = if alarm is Some {
            seq![alarm.unwrap()]
        } else {
            Seq::<Event>::empty()
        };
        let ghost u = if btn_up {
            seq![Event::BtnUp]
        } else {
            Seq::<Event>::empty()
        };
        let ghost m = if btn_mid {
            seq![Event::BtnMid]
        } else {
            Seq::<Event>::empty()
        };
        let ghost d = if btn_dwn {
            seq![Event::BtnDown]
        } else {
            Seq::<Event>::empty()
        };
        match alarm {
            Some(ev) => self.push_event(ev),
            None => {},
        }
        assert(self@ == pushed_all(e0, a)) by {
            if alarm is Some {
                assert(a.drop_last() == Seq::<Event>::empty());
                assert(pushed_all(e0, a.drop_last()) == e0);
            } else {
                assert(a.len() == 0);
            }
        }
        if btn_up {
            self.push_event(Event::BtnUp);
        }
        assert(self@ == pushed_all(e0, a + u)) by {
            if btn_up {
                assert((a + u).drop_last() == a);
            } else {
                assert(a + u == a);
            }
        }
        if btn_mid {
            self.push_event(Event::BtnMid);
        }
        assert(self@ == pushed_all(e0, a + u + m)) by {
            if btn_mid {
                assert((a + u + m).drop_last() == a + u);
            } else {
                assert(a + u + m == a + u);
            }
        }
        if btn_dwn {
            self.push_event(Event::BtnDown);
        }
        assert(self@ == pushed_all(e0, a + u + m + d)) by {
            if btn_dwn {
                assert((a + u + m + d).drop_last() == a + u + m);
            } else {
                assert(a + u + m + d == a + u + m);
            }
        }
    }

    /// Takes the oldest queued event, if any.
    pub fn pop_event(&mut self) -> (ev: Option<Event>)
        ensures
            old(self)@.len() == 0 ==> ev == None::<Event> && final(self)@ == old(self)@,
            old(self)@.len() > 0 ==> ev == Some(old(self)@[0]) && final(self)@ == old(self)@.drop_first(),
    {
        proof {
            use_type_invariant(&*self);
        }
        event_buffer_pop_front(&mut self.buffer)
    }

    /// The oldest queued event, taken from the queue, or `NoEvent` when none is queued; what the
    /// watch reads after it waited a while for input.
    pub fn get_input_waitms(&mut self) -> (ev: Event)
        ensures
            old(self)@.len() == 0 ==> ev == Event::NoEvent && final(self)@ == old(self)@,
            old(self)@.len() > 0 ==> ev == old(self)@[0] && final(self)@ == old(self)@.drop_first(),
    {
        match self.pop_event() {
            Some(ev) => ev,
            None => Event::NoEvent,
        }
    }

    /// Whether an event is queued.
    pub fn buffer_has_ev(&self) -> (r: bool)
        ensures
            r == (self@.len() > 0),
    {
        event_buffer_has_front(&self.buffer)
    }
}

} // verus!
