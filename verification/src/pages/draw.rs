use vstd::prelude::*;
use vstd::string::StringSliceAdditionalSpecFns;
use crate::display::{Display, BUFFSIZE};
use crate::display::font::{glyph_width, spaced_prefix, text_width};
use crate::display::layers::{Anchor, Shape, ShapeView, shape_ok, shape_views, shapes_drawn};
use crate::io::{DateTime, weekday_from_monday};
use crate::io::text::{
    decimal, decimal2, time_text, date_text, td_text, day_name, month_name, push_decimal,
    time_bytes, date_bytes, dow_bytes, td_bytes, lemma_decimal_digits,
};
use crate::pages::{Pages, Page, page_of};
use crate::pages::pages::{next_state, stepped_data, step_request};
use crate::pages::laws::{lemma_wf_steps_allowed, lemma_update_keeps_wf};
use crate::pages::core_pages::{IoRequest, mode_after};
use crate::io::Event;
use crate::shared_data::{SharedData, AlarmMode, StopwatchState};
use crate::io::{seconds_since, seconds_between};
use crate::display::shape::{ArrowDir, rect_check_in_range};
use crate::pages::snake::{GameState, possible_dirs, neighbour};

verus! {

/// A text shape.
pub open spec fn txt(bytes: Seq<u8>, x: u8, y: u8, s: u8, anchor: Anchor) -> ShapeView {
    ShapeView::Text { bytes, x, y, s, anchor }
}

/// A menu page: its name in the middle of the panel.
pub open spec fn menu_layout(label: Seq<u8>) -> Seq<ShapeView> {
    seq![txt(label, 100, 88, 5, Anchor::Center)]
}

/// How far the day of the week and the date stand left and right of the middle: half the wider
/// of the time at scale 10 and the time and date at scale 4 with 16 columns between them.
pub open spec fn time_offset(time: Seq<u8>, date: Seq<u8>) -> int {
    let tw = text_width(time) * 10;
    let dw = text_width(time) * 4 + text_width(date) * 4 + 16;
    if dw > tw {
        dw / 2
    } else {
        tw / 2
    }
}

/// The time page: the time large in the middle, the day of the week above it on the left and
/// the date above it on the right.
pub open spec fn menu_time_layout(now: DateTime) -> Seq<ShapeView> {
    let time = time_text(now.hour as nat, now.minute as nat);
    let date = date_text(now);
    let dow = day_name(weekday_from_monday(now.year as int, now.month as int, now.day as int));
    let off = time_offset(time, date);
    seq![
        txt(time, 100, 75, 10, Anchor::Center),
        txt(dow, (100 - off) as u8, 50, 4, Anchor::Left),
        txt(date, (100 + off) as u8, 50, 4, Anchor::Right),
    ]
}

/// The names of the alarm modes.
pub open spec fn mode_name(m: AlarmMode) -> Seq<u8> {
    match m {
        AlarmMode::Off => "Off".spec_bytes(),
        AlarmMode::Once => "Once".spec_bytes(),
        AlarmMode::Daily => "Daily".spec_bytes(),
        AlarmMode::Weekly => "Weekly".spec_bytes(),
    }
}

/// A setting page: what is set at the top, `+` and `-` at the right edge by the buttons, and
/// the value in the middle.
pub open spec fn dtset_layout(label: Seq<u8>, value: Seq<u8>) -> Seq<ShapeView> {
    seq![
        txt(label, 100, 5, 5, Anchor::Center),
        txt("+".spec_bytes(), 195, 25, 5, Anchor::Right),
        txt("-".spec_bytes(), 195, 150, 5, Anchor::Right),
        txt(value, 100, 70, 6, Anchor::Center),
    ]
}

/// The stopwatch page: a line under the running time, what the buttons do at the right edge,
/// and the four laps below.
pub open spec fn stopwatch_layout(d: SharedData, now: DateTime) -> Seq<ShapeView> {
    let elapsed = td_text(seconds_between(now, d.time_start));
    let head = if d.stopwatch_state == StopwatchState::Started {
        seq![
            txt(elapsed, 70, 10, 5, Anchor::Center),
            txt("stop".spec_bytes(), 195, 35, 3, Anchor::Right),
            txt("exit".spec_bytes(), 195, 85, 3, Anchor::Right),
            txt("lap".spec_bytes(), 195, 135, 3, Anchor::Right),
        ]
    } else {
        seq![
            if d.stopwatch_state == StopwatchState::Paused {
                txt(elapsed, 70, 10, 5, Anchor::Center)
            } else {
                txt("00:00".spec_bytes(), 70, 10, 5, Anchor::Center)
            },
            txt("start".spec_bytes(), 195, 35, 3, Anchor::Right),
            txt("exit".spec_bytes(), 195, 85, 3, Anchor::Right),
            txt("reset".spec_bytes(), 195, 135, 3, Anchor::Right),
        ]
    };
    seq![ShapeView::Rect { x: 10, y: 40, w: 130, h: 2 }] + head + seq![
        txt(td_text(d.laps@[0] as int), 70, 52, 5, Anchor::Center),
        txt(td_text(d.laps@[1] as int), 70, 87, 5, Anchor::Center),
        txt(td_text(d.laps@[2] as int), 70, 122, 5, Anchor::Center),
        txt(td_text(d.laps@[3] as int), 70, 157, 5, Anchor::Center),
    ]
}

/// What page `page` shows for the data `d` and the clock reading `now`.
pub open spec fn page_layout(page: Page, d: SharedData, now: DateTime) -> Seq<ShapeView> {
    match page {
        Page::MenuTime => menu_time_layout(now),
        Page::MenuSettings => menu_layout("set time".spec_bytes()),
        Page::MenuAlarm => menu_layout("set alarm".spec_bytes()),
        Page::MenuStopwatch => menu_layout("stopwatch".spec_bytes()),
        Page::MenuSnake => menu_layout("snake".spec_bytes()),
        Page::MenuVideo => menu_layout(":)".spec_bytes()),
        Page::MenuAlarmed => seq![
            txt("alarm".spec_bytes(), 100, 70, 6, Anchor::Center),
            txt(time_text(now.hour as nat, now.minute as nat), 100, 105, 6, Anchor::Center),
        ],
        Page::PgAlarmMode => seq![
            txt("mode:".spec_bytes(), 100, 70, 4, Anchor::Center),
            txt(mode_name(d.mode), 100, 96, 7, Anchor::Center),
        ],
        Page::PgStopwatch => stopwatch_layout(d, now),
        Page::PgDtsetYear => dtset_layout("set year".spec_bytes(), decimal(d.year as nat)),
        Page::PgDtsetMonth => dtset_layout("set month".spec_bytes(), decimal(d.month as nat)),
        Page::PgDtsetDay => dtset_layout("set day".spec_bytes(), decimal(d.day as nat)),
        Page::PgDtsetDow => dtset_layout("set dow".spec_bytes(), decimal(d.alarm_dow as nat)),
        Page::PgDtsetHour => dtset_layout(
            "set hour".spec_bytes(),
            decimal(
                (if d.dateset_alarm {
                    d.alarm_hour
                } else {
                    d.hour
                }) as nat,
            ),
        ),
        Page::PgDtsetMin => dtset_layout(
            "set minute".spec_bytes(),
            decimal(
                (if d.dateset_alarm {
                    d.alarm_minute
                } else {
                    d.minute
                }) as nat,
            ),
        ),
    }
}

/// The alarm mode after `k` presses of up from off.
pub open spec fn modes_up(k: nat) -> AlarmMode
    decreases k,
{
    if k == 0 {
        AlarmMode::Off
    } else {
        mode_after(modes_up((k - 1) as nat))
    }
}

/// The alarm mode page shows `mode:` and below it the current mode's name; up steps through
/// the names `Off`, `Once`, `Daily`, `Weekly` in turn and back to `Off`.
pub proof fn lemma_alarm_mode_page(d: SharedData, now: DateTime, k: nat)
    requires
        k < 4,
        d.mode == modes_up(k),
    ensures
        page_layout(Page::PgAlarmMode, d, now) == seq![
            txt("mode:".spec_bytes(), 100, 70, 4, Anchor::Center),
            txt(
                seq!["Off".spec_bytes(), "Once".spec_bytes(), "Daily".spec_bytes(), "Weekly".spec_bytes()][k as int],
                100,
                96,
                7,
                Anchor::Center,
            ),
        ],
        modes_up(4) == AlarmMode::Off,
{
    reveal_with_fuel(modes_up, 5);
}

/// The alarm mode page shows `mode:` and below it the name of the mode that is set: `Off`,
/// `Once`, `Daily` or `Weekly`.
pub proof fn lemma_alarm_mode_names(d: SharedData, now: DateTime)
    ensures
        page_layout(Page::PgAlarmMode, d, now).len() == 2,
        page_layout(Page::PgAlarmMode, d, now)[0] == txt("mode:".spec_bytes(), 100, 70, 4, Anchor::Center),
        d.mode == AlarmMode::Off ==> page_layout(Page::PgAlarmMode, d, now)[1]
            == txt("Off".spec_bytes(), 100, 96, 7, Anchor::Center),
        d.mode == AlarmMode::Once ==> page_layout(Page::PgAlarmMode, d, now)[1]
            == txt("Once".spec_bytes(), 100, 96, 7, Anchor::Center),
        d.mode == AlarmMode::Daily ==> page_layout(Page::PgAlarmMode, d, now)[1]
            == txt("Daily".spec_bytes(), 100, 96, 7, Anchor::Center),
        d.mode == AlarmMode::Weekly ==> page_layout(Page::PgAlarmMode, d, now)[1]
            == txt("Weekly".spec_bytes(), 100, 96, 7, Anchor::Center),
{
}

/// Every glyph is at most three columns wide.
pub open spec fn narrow(bytes: Seq<u8>) -> bool {
    forall|i: int| 0 <= i < bytes.len() ==> glyph_width(#[trigger] bytes[i]) <= 3
}

proof fn lemma_narrow_prefix(bytes: Seq<u8>, k: int)
    requires
        narrow(bytes),
        0 <= k <= bytes.len(),
    ensures
        2 * k <= spaced_prefix(bytes, k) <= 4 * k,
    decreases k,
{
    if k > 0 {
        lemma_narrow_prefix(bytes, k - 1);
    }
}

/// The time and the date of a valid reading are made of narrow glyphs, five and at most six.
proof fn lemma_clock_texts(now: DateTime)
    requires
        now.valid(),
    ensures
        narrow(time_text(now.hour as nat, now.minute as nat)),
        time_text(now.hour as nat, now.minute as nat).len() == 5,
        narrow(date_text(now)),
        2 <= date_text(now).len() <= 6,
{
    let h = now.hour as nat;
    let m = now.minute as nat;
    lemma_decimal_digits(h);
    lemma_decimal_digits(m);
    lemma_decimal_digits(now.day as nat);
    let t = time_text(h, m);
    assert forall|i: int| 0 <= i < t.len() implies glyph_width(#[trigger] t[i]) <= 3 by {
        if h < 10 {
            assert(decimal2(h) == seq![48u8] + decimal(h));
        }
        if m < 10 {
            assert(decimal2(m) == seq![48u8] + decimal(m));
        }
        let a = decimal2(h);
        if i < 2 {
            if h < 10 && i == 1 {
                assert(t[i] == decimal(h)[0]);
            } else if h >= 10 {
                assert(t[i] == decimal(h)[i]);
            }
        } else if i > 2 {
            if m < 10 && i == 4 {
                assert(t[i] == decimal(m)[0]);
            } else if m >= 10 {
                assert(t[i] == decimal(m)[i - 3]);
            }
        }
    }
    let d = date_text(now);
    let dd = decimal(now.day as nat);
    let mn = month_name(now.month - 1);
    assert forall|i: int| 0 <= i < d.len() implies glyph_width(#[trigger] d[i]) <= 3 by {
        if i < dd.len() {
            assert(d[i] == dd[i]);
        } else if i > dd.len() {
            assert(d[i] == mn[i - dd.len() - 1]);
        }
    }
}

/// The bytes of `s`.
fn str_bytes(s: &str) -> (v: Vec<u8>)
    ensures
        v@ == s.spec_bytes(),
{
    let b = s.as_bytes();
    let mut v: Vec<u8> = Vec::new();
    let mut i: usize = 0;
    while i < b.len()
        invariant
            0 <= i <= b@.len(),
            b@ == s.spec_bytes(),
            v@ == b@.subrange(0, i as int),
        decreases b@.len() - i,
    {
        v.push(b[i]);
        i += 1;
        assert(v@ =~= b@.subrange(0, i as int));
    }
    assert(b@.subrange(0, b@.len() as int) =~= b@);
    v
}

fn text_shape(bytes: Vec<u8>, x: u8, y: u8, s: u8, anchor: Anchor) -> (sh: Shape)
    ensures
        sh@ == txt(bytes@, x, y, s, anchor),
{
    Shape::Text { bytes, x, y, s, anchor }
}

fn decimal_bytes(v: u16) -> (out: Vec<u8>)
    ensures
        out@ == decimal(v as nat),
{
    let mut out: Vec<u8> = Vec::new();
    push_decimal(&mut out, v as u64);
    assert(out@ =~= decimal(v as nat));
    out
}

fn dtset_shapes(label: &str, value: Vec<u8>) -> (v: Vec<Shape>)
    ensures
        shape_views(v@) == dtset_layout(label.spec_bytes(), value@),
{
    let ghost val = value@;
    let v = vec![
        text_shape(str_bytes(label), 100, 5, 5, Anchor::Center),
        text_shape(str_bytes("+"), 195, 25, 5, Anchor::Right),
        text_shape(str_bytes("-"), 195, 150, 5, Anchor::Right),
        text_shape(value, 100, 70, 6, Anchor::Center),
    ];
    assert(shape_views(v@) =~= dtset_layout(label.spec_bytes(), val));
    v
}

impl Pages {
    /// The shapes of page `page` for the data `data` and the clock reading `now`.
    pub fn page_shapes(page: Page, data: &SharedData, now: &DateTime, display: &Display) -> (v: Vec<Shape>)
        requires
            data.wf(),
            now.valid(),
        ensures
            shape_views(v@) == page_layout(page, *data, *now),
            forall|i: int| 0 <= i < v@.len() ==> shape_ok(#[trigger] v@[i]@),
    {
        let v: Vec<Shape> = match page {
            Page::MenuTime => {
                let time = time_bytes(now);
                let date = date_bytes(now);
                let dow = dow_bytes(now);
                proof {
                    lemma_clock_texts(*now);
                    lemma_narrow_prefix(time@, time@.len() as int);
                    lemma_narrow_prefix(date@, date@.len() as int);
                }
                let tw = display.bytes_width(time.as_slice());
                let dw = display.bytes_width(date.as_slice());
                let time_width: u8 = tw * 10;
                let date_width: u8 = tw * 4 + dw * 4 + 16;
                let offset: u8 = if date_width > time_width {
                    date_width / 2
                } else {
                    time_width / 2
                };
                let left: u8 = 100 - offset;
                let right: u8 = 100 + offset;
                let v = vec![
                    text_shape(time, 100, 75, 10, Anchor::Center),
                    text_shape(dow, left, 50, 4, Anchor::Left),
                    text_shape(date, right, 50, 4, Anchor::Right),
                ];
                assert(shape_views(v@) =~= menu_time_layout(*now));
                v
            },
            Page::MenuSettings => vec![text_shape(str_bytes("set time"), 100, 88, 5, Anchor::Center)],
            Page::MenuAlarm => vec![text_shape(str_bytes("set alarm"), 100, 88, 5, Anchor::Center)],
            Page::MenuStopwatch => vec![text_shape(str_bytes("stopwatch"), 100, 88, 5, Anchor::Center)],
            Page::MenuSnake => vec![text_shape(str_bytes("snake"), 100, 88, 5, Anchor::Center)],
            Page::MenuVideo => vec![text_shape(str_bytes(":)"), 100, 88, 5, Anchor::Center)],
            Page::MenuAlarmed => vec![
                text_shape(str_bytes("alarm"), 100, 70, 6, Anchor::Center),
                text_shape(time_bytes(now), 100, 105, 6, Anchor::Center),
            ],
            Page::PgAlarmMode => {
                let name = match data.mode {
                    AlarmMode::Off => str_bytes("Off"),
                    AlarmMode::Once => str_bytes("Once"),
                    AlarmMode::Daily => str_bytes("Daily"),
                    AlarmMode::Weekly => str_bytes("Weekly"),
                };
                vec![
                    text_shape(str_bytes("mode:"), 100, 70, 4, Anchor::Center),
                    text_shape(name, 100, 96, 7, Anchor::Center),
                ]
            },
            Page::PgStopwatch => Self::stopwatch_shapes(data, now),
            Page::PgDtsetYear => dtset_shapes("set year", decimal_bytes(data.year)),
            Page::PgDtsetMonth => dtset_shapes("set month", decimal_bytes(data.month as u16)),
            Page::PgDtsetDay => dtset_shapes("set day", decimal_bytes(data.day as u16)),
            Page::PgDtsetDow => dtset_shapes("set dow", decimal_bytes(data.alarm_dow as u16)),
            Page::PgDtsetHour => {
                let h = if data.dateset_alarm {
                    data.alarm_hour
                } else {
                    data.hour
                };
                dtset_shapes("set hour", decimal_bytes(h as u16))
            },
            Page::PgDtsetMin => {
                let m = if data.dateset_alarm {
                    data.alarm_minute
                } else {
                    data.minute
                };
                dtset_shapes("set minute", decimal_bytes(m as u16))
            },
        };
        assert(shape_views(v@) =~= page_layout(page, *data, *now));
        v
    }

    fn stopwatch_shapes(data: &SharedData, now: &DateTime) -> (v: Vec<Shape>)
        requires
            data.wf(),
            now.valid(),
        ensures
            shape_views(v@) == stopwatch_layout(*data, *now),
            forall|i: int| 0 <= i < v@.len() ==> shape_ok(#[trigger] v@[i]@),
    {
        let mut v: Vec<Shape> = vec![Shape::Rect { x: 10, y: 40, w: 130, h: 2 }];
        let elapsed = seconds_since(now, &data.time_start);
        if data.stopwatch_state == StopwatchState::Started {
            v.push(text_shape(td_bytes(elapsed), 70, 10, 5, Anchor::Center));
            v.push(text_shape(str_bytes("stop"), 195, 35, 3, Anchor::Right));
            v.push(text_shape(str_bytes("exit"), 195, 85, 3, Anchor::Right));
            v.push(text_shape(str_bytes("lap"), 195, 135, 3, Anchor::Right));
        } else {
            if data.stopwatch_state == StopwatchState::Paused {
                v.push(text_shape(td_bytes(elapsed), 70, 10, 5, Anchor::Center));
            } else {
                v.push(text_shape(str_bytes("00:00"), 70, 10, 5, Anchor::Center));
            }
            v.push(text_shape(str_bytes("start"), 195, 35, 3, Anchor::Right));
            v.push(text_shape(str_bytes("exit"), 195, 85, 3, Anchor::Right));
            v.push(text_shape(str_bytes("reset"), 195, 135, 3, Anchor::Right));
        }
        v.push(text_shape(td_bytes(data.laps[0]), 70, 52, 5, Anchor::Center));
        v.push(text_shape(td_bytes(data.laps[1]), 70, 87, 5, Anchor::Center));
        v.push(text_shape(td_bytes(data.laps[2]), 70, 122, 5, Anchor::Center));
        v.push(text_shape(td_bytes(data.laps[3]), 70, 157, 5, Anchor::Center));
        assert(shape_views(v@) =~= stopwatch_layout(*data, *now));
        v
    }

    /// Draws page `page` for the data `data` and the clock reading `now`. On the hour the time
    /// page asks for a clean refresh.
    pub fn draw_page(page: Page, data: &SharedData, now: &DateTime, display: &mut Display)
        requires
            data.wf(),
            now.valid(),
        ensures
            shapes_drawn(old(display)@, final(display)@, page_layout(page, *data, *now)),
            old(display)@.len() == BUFFSIZE,
            final(display)@.len() == BUFFSIZE,
            final(display).wants_clean_update() == (old(display).wants_clean_update() || (page
                == Page::MenuTime && now.minute == 0)),
            final(display).old_frame() == old(display).old_frame(),
            final(display).is_sleeping() == old(display).is_sleeping(),
    {
        if page == Page::MenuTime && now.minute == 0 {
            display.set_clean_update();
        }
        let shapes = Self::page_shapes(page, data, now, display);
        display.draw_shapes(&shapes);
    }
}

/// A rectangle shape.
pub open spec fn rct(x: int, y: int, w: int, h: int) -> ShapeView {
    ShapeView::Rect { x: x as u8, y: y as u8, w: w as u8, h: h as u8 }
}

/// The frame around the snake's field.
pub open spec fn field_border() -> Seq<ShapeView> {
    seq![rct(9, 24, 152, 1), rct(9, 176, 152, 1), rct(9, 24, 1, 152), rct(161, 24, 1, 153)]
}

/// The snake part in cell `block` continues into its neighbour in direction `dir`.
pub open spec fn connected(state: GameState, block: int, dir: ArrowDir) -> bool {
    let a = state.field@[block] as int;
    let b = state.field@[neighbour(block, dir)] as int;
    (a - b == 1 || b - a == 1) && b != 1
}

/// The part `r` when `c` holds, else nothing.
pub open spec fn when(c: bool, r: ShapeView) -> Seq<ShapeView> {
    if c {
        seq![r]
    } else {
        Seq::empty()
    }
}

/// Cell `i` of the field: a small square for the apple; for a snake part, a bar towards each
/// neighbouring part it is connected to.
pub open spec fn cell_layout(state: GameState, i: int) -> Seq<ShapeView> {
    let x = 10 + 10 * (i % 15);
    let y = 25 + 10 * (i / 15);
    let v = state.field@[i];
    if v == 1 {
        seq![rct(x + 3, y + 3, 4, 4)]
    } else if v > 1 {
        when(connected(state, i, ArrowDir::Up), rct(x + 2, y, 6, 8)) + when(
            connected(state, i, ArrowDir::Down),
            rct(x + 2, y + 2, 6, 8),
        ) + when(connected(state, i, ArrowDir::Left), rct(x, y + 2, 8, 6)) + when(
            connected(state, i, ArrowDir::Right),
            rct(x + 2, y + 2, 8, 6),
        )
    } else {
        Seq::empty()
    }
}

/// The cells before `n`, one after the other.
pub open spec fn cells_layout(state: GameState, n: int) -> Seq<ShapeView>
    decreases n,
{
    if n <= 0 {
        Seq::empty()
    } else {
        cells_layout(state, n - 1) + cell_layout(state, n - 1)
    }
}

/// The game: the field's frame, then `GAME OVER` or `GAME WON` when the game has ended, else
/// arrows for the two turns the buttons make and the cells of the field.
pub open spec fn game_layout(state: GameState) -> Seq<ShapeView> {
    if state.game_lost || state.game_won {
        field_border() + seq![txt("GAME".spec_bytes(), 85, 55, 5, Anchor::Center)] + when(
            state.game_lost,
            txt("OVER".spec_bytes(), 85, 85, 5, Anchor::Center),
        ) + when(state.game_won, txt("WON".spec_bytes(), 85, 85, 5, Anchor::Center))
    } else {
        let (up, down) = possible_dirs(state.curr_dir);
        field_border() + seq![
            ShapeView::Arrow { x: 175, y: 25, s: 10, dir: up },
            ShapeView::Arrow { x: 175, y: 150, s: 10, dir: down },
        ] + cells_layout(state, 225)
    }
}

/// The game's menu: its frame, arrows for the buttons, `play` and `exit`, and an arrow at the
/// chosen item.
pub open spec fn game_menu_layout(state: GameState) -> Seq<ShapeView> {
    seq![
        rct(10, 25, 150, 1),
        rct(10, 175, 150, 1),
        rct(10, 25, 1, 150),
        rct(160, 25, 1, 150),
        ShapeView::Arrow { x: 175, y: 35, s: 9, dir: ArrowDir::Up },
        ShapeView::Arrow { x: 175, y: 160, s: 9, dir: ArrowDir::Down },
        txt("play".spec_bytes(), 140, 65, 5, Anchor::Right),
        txt("exit".spec_bytes(), 140, 110, 5, Anchor::Right),
    ] + when(state.menu_item == 0, ShapeView::Arrow { x: 145, y: 68, s: 9, dir: ArrowDir::Left })
        + when(state.menu_item == 1, ShapeView::Arrow { x: 145, y: 113, s: 9, dir: ArrowDir::Left })
}

/// Whether shape `sh` is a rectangle that covers the pixel at (`px`, `py`).
pub open spec fn covers(sh: ShapeView, px: int, py: int) -> bool {
    match sh {
        ShapeView::Rect { x, y, w, h } => x <= px < x + w && y <= py < y + h,
        _ => false,
    }
}

/// Whether some rectangle among `shs` covers the pixel at (`px`, `py`).
pub open spec fn layout_covers(shs: Seq<ShapeView>, px: int, py: int) -> bool {
    exists|k: int| 0 <= k < shs.len() && #[trigger] covers(shs[k], px, py)
}

/// The shapes of cell `i` stand together in the shapes of the cells before `n`.
proof fn lemma_cell_within_cells(state: GameState, n: int, i: int) -> (k: int)
    requires
        0 <= i < n,
    ensures
        0 <= k,
        k + cell_layout(state, i).len() <= cells_layout(state, n).len(),
        forall|j: int|
            0 <= j < cell_layout(state, i).len() ==> cells_layout(state, n)[k + j]
                == #[trigger] cell_layout(state, i)[j],
    decreases n,
{
    if i == n - 1 {
        cells_layout(state, n - 1).len() as int
    } else {
        lemma_cell_within_cells(state, n - 1, i)
    }
}

/// While the game runs, the drawn game is six shapes followed by the cells' shapes.
proof fn lemma_game_layout_cells(state: GameState)
    requires
        !state.game_lost,
        !state.game_won,
    ensures
        game_layout(state).len() == 6 + cells_layout(state, 225).len(),
        forall|m: int|
            0 <= m < cells_layout(state, 225).len() ==> game_layout(state)[6 + m]
                == #[trigger] cells_layout(state, 225)[m],
{
    let (up, down) = possible_dirs(state.curr_dir);
    let head = field_border() + seq![
        ShapeView::Arrow { x: 175, y: 25, s: 10, dir: up },
        ShapeView::Arrow { x: 175, y: 150, s: 10, dir: down },
    ];
    assert(head.len() == 6);
    assert(game_layout(state) == head + cells_layout(state, 225));
}

/// A pixel that a shape of cell `i` covers is covered by the drawn game.
proof fn lemma_cell_shape_covers(state: GameState, i: int, j: int, px: int, py: int)
    requires
        !state.game_lost,
        !state.game_won,
        0 <= i < 225,
        0 <= j < cell_layout(state, i).len(),
        covers(cell_layout(state, i)[j], px, py),
    ensures
        layout_covers(game_layout(state), px, py),
{
    let k = lemma_cell_within_cells(state, 225, i);
    lemma_game_layout_cells(state);
    let sh = cell_layout(state, i)[j];
    assert(cells_layout(state, 225)[k + j] == sh);
    assert(game_layout(state)[6 + k + j] == sh);
}

/// Where the snake part in cell `i` continues into its neighbour in direction `dir`, the drawn
/// game covers the whole line from the cell's centre to the cell's edge on that side.
pub proof fn lemma_snake_bar_sides(state: GameState, i: int, dir: ArrowDir)
    requires
        !state.game_lost,
        !state.game_won,
        0 <= i < 225,
        state.field@[i] > 1,
        connected(state, i, dir),
    ensures
        ({
            let x = 10 + 10 * (i % 15);
            let y = 25 + 10 * (i / 15);
            let shs = game_layout(state);
            &&& dir == ArrowDir::Up ==> forall|py: int|
                y <= py <= y + 5 ==> #[trigger] layout_covers(shs, x + 5, py)
            &&& dir == ArrowDir::Down ==> forall|py: int|
                y + 5 <= py <= y + 9 ==> #[trigger] layout_covers(shs, x + 5, py)
            &&& dir == ArrowDir::Left ==> forall|px: int|
                x <= px <= x + 5 ==> #[trigger] layout_covers(shs, px, y + 5)
            &&& dir == ArrowDir::Right ==> forall|px: int|
                x + 5 <= px <= x + 9 ==> #[trigger] layout_covers(shs, px, y + 5)
        }),
{
    let x = 10 + 10 * (i % 15);
    let y = 25 + 10 * (i / 15);
    let cl = cell_layout(state, i);
    let up = when(connected(state, i, ArrowDir::Up), rct(x + 2, y, 6, 8));
    let down = when(connected(state, i, ArrowDir::Down), rct(x + 2, y + 2, 6, 8));
    let left = when(connected(state, i, ArrowDir::Left), rct(x, y + 2, 8, 6));
    let right = when(connected(state, i, ArrowDir::Right), rct(x + 2, y + 2, 8, 6));
    assert(cl == up + down + left + right);
    match dir {
        ArrowDir::Up => {
            assert(cl[0] == rct(x + 2, y, 6, 8));
            assert forall|py: int| y <= py <= y + 5 implies #[trigger] layout_covers(
                game_layout(state),
                x + 5,
                py,
            ) by {
                lemma_cell_shape_covers(state, i, 0, x + 5, py);
            }
        },
        ArrowDir::Down => {
            let j = up.len() as int;
            assert(cl[j] == rct(x + 2, y + 2, 6, 8));
            assert forall|py: int| y + 5 <= py <= y + 9 implies #[trigger] layout_covers(
                game_layout(state),
                x + 5,
                py,
            ) by {
                lemma_cell_shape_covers(state, i, j, x + 5, py);
            }
        },
        ArrowDir::Left => {
            let j = (up.len() + down.len()) as int;
            assert(cl[j] == rct(x, y + 2, 8, 6));
            assert forall|px: int| x <= px <= x + 5 implies #[trigger] layout_covers(
                game_layout(state),
                px,
                y + 5,
            ) by {
                lemma_cell_shape_covers(state, i, j, px, y + 5);
            }
        },
        ArrowDir::Right => {
            let j = (up.len() + down.len() + left.len()) as int;
            assert(cl[j] == rct(x + 2, y + 2, 8, 6));
            assert forall|px: int| x + 5 <= px <= x + 9 implies #[trigger] layout_covers(
                game_layout(state),
                px,
                y + 5,
            ) by {
                lemma_cell_shape_covers(state, i, j, px, y + 5);
            }
        },
    }
}

/// The apple is drawn as a square around the centre of its cell.
pub proof fn lemma_apple_drawn(state: GameState, i: int)
    requires
        !state.game_lost,
        !state.game_won,
        0 <= i < 225,
        state.field@[i] == 1,
    ensures
        forall|px: int, py: int|
            10 + 10 * (i % 15) + 3 <= px < 10 + 10 * (i % 15) + 7 && 25 + 10 * (i / 15) + 3 <= py
                < 25 + 10 * (i / 15) + 7 ==> #[trigger] layout_covers(game_layout(state), px, py),
{
    let x = 10 + 10 * (i % 15);
    let y = 25 + 10 * (i / 15);
    assert(cell_layout(state, i)[0] == rct(x + 3, y + 3, 4, 4));
    assert forall|px: int, py: int|
        x + 3 <= px < x + 7 && y + 3 <= py < y + 7 implies #[trigger] layout_covers(
        game_layout(state),
        px,
        py,
    ) by {
        lemma_cell_shape_covers(state, i, 0, px, py);
    }
}

/// Two snake parts joined vertically are drawn without a gap: the drawn game covers every
/// pixel on the line from the upper cell's centre to the lower cell's centre.
pub proof fn lemma_snake_joins_vertically(state: GameState, i: int)
    requires
        !state.game_lost,
        !state.game_won,
        0 <= i < 210,
        state.field@[i] > 1,
        connected(state, i, ArrowDir::Down),
    ensures
        state.field@[i + 15] > 1,
        connected(state, i + 15, ArrowDir::Up),
        forall|py: int|
            25 + 10 * (i / 15) + 5 <= py <= 25 + 10 * (i / 15) + 15 ==> #[trigger] layout_covers(
                game_layout(state),
                10 + 10 * (i % 15) + 5,
                py,
            ),
{
    let j = i + 15;
    assert(neighbour(i, ArrowDir::Down) == j);
    assert(neighbour(j, ArrowDir::Up) == i);
    assert(j % 15 == i % 15 && j / 15 == i / 15 + 1);
    lemma_snake_bar_sides(state, i, ArrowDir::Down);
    lemma_snake_bar_sides(state, j, ArrowDir::Up);
}

/// Two snake parts joined side by side are drawn without a gap: the drawn game covers every
/// pixel on the line from the left cell's centre to the right cell's centre.
pub proof fn lemma_snake_joins_horizontally(state: GameState, i: int)
    requires
        !state.game_lost,
        !state.game_won,
        0 <= i < 225,
        i % 15 < 14,
        state.field@[i] > 1,
        connected(state, i, ArrowDir::Right),
    ensures
        state.field@[i + 1] > 1,
        connected(state, i + 1, ArrowDir::Left),
        forall|px: int|
            10 + 10 * (i % 15) + 5 <= px <= 10 + 10 * (i % 15) + 15 ==> #[trigger] layout_covers(
                game_layout(state),
                px,
                25 + 10 * (i / 15) + 5,
            ),
{
    let j = i + 1;
    assert(neighbour(i, ArrowDir::Right) == j);
    assert(neighbour(j, ArrowDir::Left) == i);
    assert(j % 15 == i % 15 + 1 && j / 15 == i / 15);
    lemma_snake_bar_sides(state, i, ArrowDir::Right);
    lemma_snake_bar_sides(state, j, ArrowDir::Left);
}

fn rect_shape(x: u8, y: u8, w: u8, h: u8) -> (sh: Shape)
    requires
        rect_check_in_range(x as int, y as int, w as int, h as int),
    ensures
        sh@ == rct(x as int, y as int, w as int, h as int),
        shape_ok(sh@),
{
    Shape::Rect { x, y, w, h }
}

fn push_when(v: &mut Vec<Shape>, c: bool, sh: Shape)
    requires
        shape_ok(sh@),
        forall|i: int| 0 <= i < old(v)@.len() ==> shape_ok(#[trigger] old(v)@[i]@),
    ensures
        shape_views(final(v)@) == shape_views(old(v)@) + when(c, sh@),
        forall|i: int| 0 <= i < final(v)@.len() ==> shape_ok(#[trigger] final(v)@[i]@),
{
    let ghost s = sh@;
    if c {
        v.push(sh);
    }
    assert(shape_views(v@) =~= shape_views(old(v)@) + when(c, s));
}

impl Pages {
    /// Draws the snake game.
    pub fn draw_game(state: &GameState, display: &mut Display)
        requires
            state.wf(),
        ensures
            shapes_drawn(old(display)@, final(display)@, game_layout(*state)),
            old(display)@.len() == BUFFSIZE,
            final(display)@.len() == BUFFSIZE,
            final(display).old_frame() == old(display).old_frame(),
            final(display).is_sleeping() == old(display).is_sleeping(),
            final(display).wants_clean_update() == old(display).wants_clean_update(),
    {
        let mut v: Vec<Shape> = vec![
            rect_shape(9, 24, 152, 1),
            rect_shape(9, 176, 152, 1),
            rect_shape(9, 24, 1, 152),
            rect_shape(161, 24, 1, 153),
        ];
        assert(shape_views(v@) =~= field_border());
        if state.game_lost || state.game_won {
            v.push(text_shape(str_bytes("GAME"), 85, 55, 5, Anchor::Center));
            push_when(&mut v, state.game_lost, text_shape(str_bytes("OVER"), 85, 85, 5, Anchor::Center));
            push_when(&mut v, state.game_won, text_shape(str_bytes("WON"), 85, 85, 5, Anchor::Center));
            assert(shape_views(v@) =~= game_layout(*state));
            display.draw_shapes(&v);
            return;
        }
        let (dir_up, dir_down) = Self::get_possible_dirs(&state.curr_dir);
        v.push(Shape::Arrow { x: 175, y: 25, s: 10, dir: dir_up });
        v.push(Shape::Arrow { x: 175, y: 150, s: 10, dir: dir_down });
        let ghost head = shape_views(v@);
        let mut i: usize = 0;
        while i < 225
            invariant
                0 <= i <= 225,
                state.wf(),
                shape_views(v@) == head + cells_layout(*state, i as int),
                forall|j: int| 0 <= j < v@.len() ==> shape_ok(#[trigger] v@[j]@),
            decreases 225 - i,
        {
            let ghost before = shape_views(v@);
            let (x, y) = Self::get_field_xy(i);
            if state.field[i] == 1 {
                v.push(rect_shape(x + 3, y + 3, 4, 4));
                assert(shape_views(v@) =~= before + cell_layout(*state, i as int));
            } else if state.field[i] > 1 {
                let up = Self::is_connected(state, i, ArrowDir::Up);
                push_when(&mut v, up, rect_shape(x + 2, y, 6, 8));
                let down = Self::is_connected(state, i, ArrowDir::Down);
                push_when(&mut v, down, rect_shape(x + 2, y + 2, 6, 8));
                let left = Self::is_connected(state, i, ArrowDir::Left);
                push_when(&mut v, left, rect_shape(x, y + 2, 8, 6));
                let right = Self::is_connected(state, i, ArrowDir::Right);
                push_when(&mut v, right, rect_shape(x + 2, y + 2, 8, 6));
                assert(shape_views(v@) =~= before + cell_layout(*state, i as int));
            } else {
                assert(shape_views(v@) =~= before + cell_layout(*state, i as int));
            }
            assert(head + cells_layout(*state, i + 1) =~= before + cell_layout(*state, i as int));
            i += 1;
        }
        assert(shape_views(v@) =~= game_layout(*state));
        display.draw_shapes(&v);
    }

    /// Draws the snake game's menu.
    pub fn draw_menu(state: &GameState, display: &mut Display)
        ensures
            shapes_drawn(old(display)@, final(display)@, game_menu_layout(*state)),
            old(display)@.len() == BUFFSIZE,
            final(display)@.len() == BUFFSIZE,
            final(display).old_frame() == old(display).old_frame(),
            final(display).is_sleeping() == old(display).is_sleeping(),
            final(display).wants_clean_update() == old(display).wants_clean_update(),
    {
        let mut v: Vec<Shape> = vec![
            rect_shape(10, 25, 150, 1),
            rect_shape(10, 175, 150, 1),
            rect_shape(10, 25, 1, 150),
            rect_shape(160, 25, 1, 150),
            Shape::Arrow { x: 175, y: 35, s: 9, dir: ArrowDir::Up },
            Shape::Arrow { x: 175, y: 160, s: 9, dir: ArrowDir::Down },
            text_shape(str_bytes("play"), 140, 65, 5, Anchor::Right),
            text_shape(str_bytes("exit"), 140, 110, 5, Anchor::Right),
        ];
        push_when(&mut v, state.menu_item == 0, Shape::Arrow { x: 145, y: 68, s: 9, dir: ArrowDir::Left });
        push_when(&mut v, state.menu_item == 1, Shape::Arrow { x: 145, y: 113, s: 9, dir: ArrowDir::Left });
        assert(shape_views(v@) =~= game_menu_layout(*state));
        display.draw_shapes(&v);
    }
}

impl Pages {
    /// Handles event `ev` as `update_page` does, then draws the page of the new state with the
    /// data after the event.
    pub fn step_and_draw(
        &mut self,
        ev: Event,
        data: &mut SharedData,
        now: &DateTime,
        display: &mut Display,
    ) -> (req: IoRequest)
        requires
            old(data).wf(),
            now.valid(),
        ensures
            final(self).state() == next_state(old(self).state(), ev),
            final(self).page() == page_of(final(self).state()),
            stepped_data(old(self).state(), ev, *old(data), *now, *final(data)),
            req == step_request(old(self).state(), ev, *old(data)),
            final(data).wf(),
            shapes_drawn(
                old(display)@,
                final(display)@,
                page_layout(final(self).page(), *final(data), *now),
            ),
            final(display).wants_clean_update() == (old(display).wants_clean_update() || (
            final(self).page() == Page::MenuTime && now.minute == 0)),
            final(display).old_frame() == old(display).old_frame(),
            final(display).is_sleeping() == old(display).is_sleeping(),
    {
        proof {
            lemma_wf_steps_allowed(self.state(), ev, *data, *now);
        }
        let ghost (s0, d0) = (self.state(), *data);
        let req = self.update_page(ev, data, now);
        proof {
            lemma_update_keeps_wf(s0, ev, d0, *now, *data);
        }
        let page = self.curr_page();
        Self::draw_page(page, data, now, display);
        req
    }
}

} // verus!
