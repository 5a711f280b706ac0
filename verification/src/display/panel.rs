use vstd::prelude::*;
use crate::display::{Display, BUFFSIZE};

verus! {

// Commands of the GDEW0154M09 panel controller.
pub const PANEL_SETTING: u8 = 0x00;
pub const POWER_OFF: u8 = 0x02;
pub const POWER_ON: u8 = 0x04;
pub const DEEP_SLEEP: u8 = 0x07;
pub const DATA_TRANSMISSION_1: u8 = 0x10;
pub const DISPLAY_REFRESH: u8 = 0x12;
pub const DATA_TRANSMISSION_2: u8 = 0x13;
pub const LUT_VCOM: u8 = 0x20;
pub const LUT_WW: u8 = 0x21;
pub const LUT_BW: u8 = 0x22;
pub const LUT_WB: u8 = 0x23;
pub const LUT_BB: u8 = 0x24;
pub const VCOM_DATA_INTERVAL: u8 = 0x50;
pub const TCON_SETTING: u8 = 0x60;
pub const RESOLUTION_SETTING: u8 = 0x61;
pub const POWER_SAVING: u8 = 0xE3;

// Waveform tables for a refresh that keeps the previous image.
pub const LUT_ARR_DC: [u8; 56] = [
    0x01, 0x04, 0x04, 0x03, 0x01, 0x01, 0x01, 0x00, 0x00, 0x00, 0x00, 0x00,
    0x01, 0x00, 0x00, 0x00, 0x00, 0x00, 0x00, 0x00, 0x00, 0x00, 0x00, 0x00,
    0x00, 0x00, 0x00, 0x00, 0x00, 0x00, 0x00, 0x00, 0x00, 0x00, 0x00, 0x00,
    0x00, 0x00, 0x00, 0x00, 0x00, 0x00, 0x00, 0x00, 0x00, 0x00, 0x00, 0x00,
    0x00, 0x00, 0x00, 0x00, 0x00, 0x00, 0x00, 0x00,
];

pub const LUT_ARR_WW: [u8; 42] = [
    0x01, 0x04, 0x04, 0x03, 0x01, 0x01, 0x01, 0x00, 0x00, 0x00, 0x00, 0x00,
    0x00, 0x00, 0x00, 0x00, 0x00, 0x00, 0x00, 0x00, 0x00, 0x00, 0x00, 0x00,
    0x00, 0x00, 0x00, 0x00, 0x00, 0x00, 0x00, 0x00, 0x00, 0x00, 0x00, 0x00,
    0x00, 0x00, 0x00, 0x00, 0x00, 0x00,
];

pub const LUT_ARR_BW: [u8; 56] = [
    0x01, 0x84, 0x84, 0x83, 0x01, 0x01, 0x01, 0x00, 0x00, 0x00, 0x00, 0x00,
    0x00, 0x00, 0x00, 0x00, 0x00, 0x00, 0x00, 0x00, 0x00, 0x00, 0x00, 0x00,
    0x00, 0x00, 0x00, 0x00, 0x00, 0x00, 0x00, 0x00, 0x00, 0x00, 0x00, 0x00,
    0x00, 0x00, 0x00, 0x00, 0x00, 0x00, 0x00, 0x00, 0x00, 0x00, 0x00, 0x00,
    0x00, 0x00, 0x00, 0x00, 0x00, 0x00, 0x00, 0x00,
];

pub const LUT_ARR_WB: [u8; 56] = [
    0x01, 0x44, 0x44, 0x43, 0x01, 0x01, 0x01, 0x00, 0x00, 0x00, 0x00, 0x00,
    0x00, 0x00, 0x00, 0x00, 0x00, 0x00, 0x00, 0x00, 0x00, 0x00, 0x00, 0x00,
    0x00, 0x00, 0x00, 0x00, 0x00, 0x00, 0x00, 0x00, 0x00, 0x00, 0x00, 0x00,
    0x00, 0x00, 0x00, 0x00, 0x00, 0x00, 0x00, 0x00, 0x00, 0x00, 0x00, 0x00,
    0x00, 0x00, 0x00, 0x00, 0x00, 0x00, 0x00, 0x00,
];

pub const LUT_ARR_BB: [u8; 56] = [
    0x01, 0x04, 0x04, 0x03, 0x01, 0x01, 0x01, 0x00, 0x00, 0x00, 0x00, 0x00,
    0x00, 0x00, 0x00, 0x00, 0x00, 0x00, 0x00, 0x00, 0x00, 0x00, 0x00, 0x00,
    0x00, 0x00, 0x00, 0x00, 0x00, 0x00, 0x00, 0x00, 0x00, 0x00, 0x00, 0x00,
    0x00, 0x00, 0x00, 0x00, 0x00, 0x00, 0x00, 0x00, 0x00, 0x00, 0x00, 0x00,
    0x00, 0x00, 0x00, 0x00, 0x00, 0x00, 0x00, 0x00,
];

/// One step of talking to the panel.
pub enum PanelOp {
    /// Pull the reset line low for 10 ms, then release it and wait 10 ms more.
    Reset,
    /// Send a command byte.
    Command(u8),
    /// Send data bytes.
    Data(Vec<u8>),
    /// Wait 10 ms, then until the panel no longer reports busy.
    WaitBusy,
    /// Wait until the panel has powered off, then 5 ms more.
    WaitPowerOff,
}

/// A step of talking to the panel, with the data bytes as a sequence.
pub enum PanelStep {
    Reset,
    Command(u8),
    Data(Seq<u8>),
    WaitBusy,
    WaitPowerOff,
}

impl View for PanelOp {
    type V = PanelStep;

    open spec fn view(&self) -> PanelStep {
        match self {
            PanelOp::Reset => PanelStep::Reset,
            PanelOp::Command(c) => PanelStep::Command(*c),
            PanelOp::Data(d) => PanelStep::Data(d@),
            PanelOp::WaitBusy => PanelStep::WaitBusy,
            PanelOp::WaitPowerOff => PanelStep::WaitPowerOff,
        }
    }
}

/// The steps of a sequence of panel operations.
pub open spec fn steps_of(ops: Seq<PanelOp>) -> Seq<PanelStep> {
    ops.map_values(|op: PanelOp| op@)
}

/// The start-up sequence: reset, the panel settings (the first byte picks the built-in
/// waveforms for a clean refresh, else those the sequence loads), the waveform tables when no
/// clean refresh is asked for, and power on.
pub open spec fn init_steps(clean_update: bool) -> Seq<PanelStep> {
    seq![
        PanelStep::Reset,
        PanelStep::Command(PANEL_SETTING),
        PanelStep::Data(seq![if clean_update { 0xdfu8 } else { 0xffu8 }]),
        PanelStep::Data(seq![0x0eu8]),
        PanelStep::Command(0x4d),
        PanelStep::Data(seq![0x55u8]),
        PanelStep::Command(0xaa),
        PanelStep::Data(seq![0x0fu8]),
        PanelStep::Command(0xe9),
        PanelStep::Data(seq![0x02u8]),
        PanelStep::Command(0xb6),
        PanelStep::Data(seq![0x11u8]),
        PanelStep::Command(0xf3),
        PanelStep::Data(seq![0x0au8]),
        PanelStep::Command(RESOLUTION_SETTING),
        PanelStep::Data(seq![0xc8u8]),
        PanelStep::Data(seq![0x00u8]),
        PanelStep::Data(seq![0xc8u8]),
        PanelStep::Command(TCON_SETTING),
        PanelStep::Data(seq![0x00u8]),
        PanelStep::Command(VCOM_DATA_INTERVAL),
        PanelStep::Data(seq![0x97u8]),
        PanelStep::Command(POWER_SAVING),
        PanelStep::Data(seq![0x00u8]),
    ] + (if clean_update {
        Seq::<PanelStep>::empty()
    } else {
        seq![
            PanelStep::Command(LUT_VCOM),
            PanelStep::Data(LUT_ARR_DC@),
            PanelStep::Command(LUT_WW),
            PanelStep::Data(LUT_ARR_WW@),
            PanelStep::Command(LUT_BW),
            PanelStep::Data(LUT_ARR_BW@),
            PanelStep::Command(LUT_WB),
            PanelStep::Data(LUT_ARR_WB@),
            PanelStep::Command(LUT_BB),
            PanelStep::Data(LUT_ARR_BB@),
        ]
    }) + seq![PanelStep::Command(POWER_ON), PanelStep::WaitBusy]
}

/// The sequence that puts the panel into deep sleep.
pub open spec fn sleep_steps() -> Seq<PanelStep> {
    seq![
        PanelStep::Command(POWER_OFF),
        PanelStep::WaitPowerOff,
        PanelStep::Command(DEEP_SLEEP),
        PanelStep::Data(seq![0xA5u8]),
    ]
}

/// The sequence of a refresh: the new frame, the frame shown before, refresh.
pub open spec fn refresh_steps(curr: Seq<u8>, old: Seq<u8>) -> Seq<PanelStep> {
    seq![
        PanelStep::Command(DATA_TRANSMISSION_2),
        PanelStep::Data(curr),
        PanelStep::Command(DATA_TRANSMISSION_1),
        PanelStep::Data(old),
        PanelStep::Command(DISPLAY_REFRESH),
        PanelStep::WaitBusy,
    ]
}

/// The waveform table that a waveform command loads.
pub open spec fn lut_table(cmd: u8) -> Option<Seq<u8>> {
    if cmd == LUT_VCOM {
        Some(LUT_ARR_DC@)
    } else if cmd == LUT_WW {
        Some(LUT_ARR_WW@)
    } else if cmd == LUT_BW {
        Some(LUT_ARR_BW@)
    } else if cmd == LUT_WB {
        Some(LUT_ARR_WB@)
    } else if cmd == LUT_BB {
        Some(LUT_ARR_BB@)
    } else {
        None
    }
}

/// In the start-up sequence every waveform command is followed by its own table, and the
/// tables are only loaded when no clean refresh is asked for.
pub proof fn lemma_init_loads_matching_tables(clean: bool, k: int, cmd: u8)
    requires
        0 <= k < init_steps(clean).len(),
        init_steps(clean)[k] == PanelStep::Command(cmd),
        lut_table(cmd) is Some,
    ensures
        !clean,
        k + 1 < init_steps(clean).len(),
        init_steps(clean)[k + 1] == PanelStep::Data(lut_table(cmd).unwrap()),
{
    let s = init_steps(clean);
    let head = seq![
        PanelStep::Reset,
        PanelStep::Command(PANEL_SETTING),
        PanelStep::Data(seq![if clean { 0xdfu8 } else { 0xffu8 }]),
        PanelStep::Data(seq![0x0eu8]),
        PanelStep::Command(0x4d),
        PanelStep::Data(seq![0x55u8]),
        PanelStep::Command(0xaa),
        PanelStep::Data(seq![0x0fu8]),
        PanelStep::Command(0xe9),
        PanelStep::Data(seq![0x02u8]),
        PanelStep::Command(0xb6),
        PanelStep::Data(seq![0x11u8]),
        PanelStep::Command(0xf3),
        PanelStep::Data(seq![0x0au8]),
        PanelStep::Command(RESOLUTION_SETTING),
        PanelStep::Data(seq![0xc8u8]),
        PanelStep::Data(seq![0x00u8]),
        PanelStep::Data(seq![0xc8u8]),
        PanelStep::Command(TCON_SETTING),
        PanelStep::Data(seq![0x00u8]),
        PanelStep::Command(VCOM_DATA_INTERVAL),
        PanelStep::Data(seq![0x97u8]),
        PanelStep::Command(POWER_SAVING),
        PanelStep::Data(seq![0x00u8]),
    ];
    assert(head.len() == 24);
    if k < 24 {
        assert(s[k] == head[k]);
        assert(false);
    }
}

fn push_command(ops: &mut Vec<PanelOp>, cmd: u8)
    ensures
        steps_of(final(ops)@) == steps_of(old(ops)@).push(PanelStep::Command(cmd)),
{
    ops.push(PanelOp::Command(cmd));
    assert(steps_of(ops@) =~= steps_of(old(ops)@).push(PanelStep::Command(cmd)));
}

fn push_data(ops: &mut Vec<PanelOp>, data: Vec<u8>)
    ensures
        steps_of(final(ops)@) == steps_of(old(ops)@).push(PanelStep::Data(data@)),
{
    let ghost d = data@;
    ops.push(PanelOp::Data(data));
    assert(steps_of(ops@) =~= steps_of(old(ops)@).push(PanelStep::Data(d)));
}

fn push_byte(ops: &mut Vec<PanelOp>, b: u8)
    ensures
        steps_of(final(ops)@) == steps_of(old(ops)@).push(PanelStep::Data(seq![b])),
{
    let v = vec![b];
    assert(v@ == seq![b]);
    push_data(ops, v);
}

fn push_step(ops: &mut Vec<PanelOp>, op: PanelOp)
    ensures
        steps_of(final(ops)@) == steps_of(old(ops)@).push(op@),
{
    let ghost s = op@;
    ops.push(op);
    assert(steps_of(ops@) =~= steps_of(old(ops)@).push(s));
}

fn array_to_vec<const N: usize>(a: &[u8; N]) -> (v: Vec<u8>)
    ensures
        v@ == a@,
{
    let mut v: Vec<u8> = Vec::new();
    let mut i: usize = 0;
    while i < N
        invariant
            0 <= i <= N,
            a@.len() == N,
            v@ == a@.subrange(0, i as int),
        decreases N - i,
    {
        v.push(a[i]);
        i += 1;
        assert(v@ =~= a@.subrange(0, i as int));
    }
    assert(a@.subrange(0, N as int) =~= a@);
    v
}

impl Display {
    /// A display with both frames white, asleep, and wanting a clean refresh first.
    pub fn new() -> (d: Display)
        ensures
            d@ == Seq::new(BUFFSIZE as nat, |i: int| 0xffu8),
            d@.len() == BUFFSIZE,
            d.old_frame() == Seq::new(BUFFSIZE as nat, |i: int| 0xffu8),
            d.is_sleeping(),
            d.wants_clean_update(),
    {
        let buffer_curr: Vec<u8> = vec![0xFF; BUFFSIZE];
        let buffer_old: Vec<u8> = vec![0xff; BUFFSIZE];
        assert(buffer_curr@ =~= Seq::new(BUFFSIZE as nat, |i: int| 0xffu8));
        assert(buffer_old@ =~= Seq::new(BUFFSIZE as nat, |i: int| 0xffu8));
        Display { buffer_curr, buffer_old, sleeping: true, clean_update: true }
    }

    /// Wakes the panel: returns the start-up sequence to send. The first start-up after a clean
    /// refresh was asked for uses the panel's built-in waveforms, which refresh the whole image.
    pub fn init(&mut self) -> (ops: Vec<PanelOp>)
        ensures
            old(self)@.len() == BUFFSIZE,
            final(self)@.len() == BUFFSIZE,
            steps_of(ops@) == init_steps(old(self).wants_clean_update()),
            !final(self).is_sleeping(),
            !final(self).wants_clean_update(),
            final(self)@ == old(self)@,
            final(self).old_frame() == old(self).old_frame(),
    {
        proof {
            use_type_invariant(&*self);
        }
        let mut ops: Vec<PanelOp> = Vec::new();
        let ghost clean = self.clean_update;
        push_step(&mut ops, PanelOp::Reset);
        push_command(&mut ops, PANEL_SETTING);
        if self.clean_update {
            push_byte(&mut ops, 0xdf);
        } else {
            push_byte(&mut ops, 0xff);
        }
        push_byte(&mut ops, 0x0e);
        push_command(&mut ops, 0x4d);
        push_byte(&mut ops, 0x55);
        push_command(&mut ops, 0xaa);
        push_byte(&mut ops, 0x0f);
        push_command(&mut ops, 0xe9);
        push_byte(&mut ops, 0x02);
        push_command(&mut ops, 0xb6);
        push_byte(&mut ops, 0x11);
        push_command(&mut ops, 0xf3);
        push_byte(&mut ops, 0x0a);
        push_command(&mut ops, RESOLUTION_SETTING);
        push_byte(&mut ops, 0xc8);
        push_byte(&mut ops, 0x00);
        push_byte(&mut ops, 0xc8);
        push_command(&mut ops, TCON_SETTING);
        push_byte(&mut ops, 0x00);
        push_command(&mut ops, VCOM_DATA_INTERVAL);
        push_byte(&mut ops, 0x97);
        push_command(&mut ops, POWER_SAVING);
        push_byte(&mut ops, 0x00);
        let ghost head = steps_of(ops@);
        if !self.clean_update {
            push_command(&mut ops, LUT_VCOM);
            push_data(&mut ops, array_to_vec(&LUT_ARR_DC));
            push_command(&mut ops, LUT_WW);
            push_data(&mut ops, array_to_vec(&LUT_ARR_WW));
            push_command(&mut ops, LUT_BW);
            push_data(&mut ops, array_to_vec(&LUT_ARR_BW));
            push_command(&mut ops, LUT_WB);
            push_data(&mut ops, array_to_vec(&LUT_ARR_WB));
            push_command(&mut ops, LUT_BB);
            push_data(&mut ops, array_to_vec(&LUT_ARR_BB));
        } else {
            self.clean_update = false;
        }
        push_command(&mut ops, POWER_ON);
        push_step(&mut ops, PanelOp::WaitBusy);
        self.sleeping = false;
        assert(steps_of(ops@) =~= init_steps(clean));
        ops
    }

    /// Puts the panel into deep sleep: returns the sequence to send.
    pub fn sleep(&mut self) -> (ops: Vec<PanelOp>)
        ensures
            old(self)@.len() == BUFFSIZE,
            final(self)@.len() == BUFFSIZE,
            steps_of(ops@) == sleep_steps(),
            final(self).is_sleeping(),
            final(self).wants_clean_update() == old(self).wants_clean_update(),
            final(self)@ == old(self)@,
            final(self).old_frame() == old(self).old_frame(),
    {
        proof {
            use_type_invariant(&*self);
        }
        self.sleeping = true;
        let mut ops: Vec<PanelOp> = Vec::new();
        push_command(&mut ops, POWER_OFF);
        push_step(&mut ops, PanelOp::WaitPowerOff);
        push_command(&mut ops, DEEP_SLEEP);
        push_byte(&mut ops, 0xA5);
        assert(steps_of(ops@) =~= sleep_steps());
        ops
    }

    /// Shows the frame drawn: returns the sequence to send (the start-up sequence first when the
    /// panel sleeps), then keeps the frame as the one shown and starts a white frame.
    pub fn update(&mut self) -> (ops: Vec<PanelOp>)
        ensures
            old(self)@.len() == BUFFSIZE,
            final(self)@.len() == BUFFSIZE,
            steps_of(ops@) == (if old(self).is_sleeping() {
                init_steps(old(self).wants_clean_update())
            } else {
                Seq::<PanelStep>::empty()
            }) + refresh_steps(old(self)@, old(self).old_frame()),
            final(self).old_frame() == old(self)@,
            final(self)@ == Seq::new(BUFFSIZE as nat, |i: int| 0xffu8),
            !final(self).is_sleeping(),
            final(self).wants_clean_update() == (old(self).wants_clean_update() && !old(
                self,
            ).is_sleeping()),
    {
        proof {
            use_type_invariant(&*self);
        }
        let ghost curr0 = self@;
        let ghost old0 = self.old_frame();
        let mut ops: Vec<PanelOp> = if self.sleeping {
            self.init()
        } else {
            Vec::new()
        };
        let ghost head = steps_of(ops@);
        push_command(&mut ops, DATA_TRANSMISSION_2);
        push_data(&mut ops, self.buffer_curr.clone());
        push_command(&mut ops, DATA_TRANSMISSION_1);
        push_data(&mut ops, self.buffer_old.clone());
        push_command(&mut ops, DISPLAY_REFRESH);
        push_step(&mut ops, PanelOp::WaitBusy);
        assert(steps_of(ops@) =~= head + refresh_steps(curr0, old0));
        let mut fresh: Vec<u8> = vec![0xff; BUFFSIZE];
        std::mem::swap(&mut fresh, &mut self.buffer_curr);
        self.buffer_old = fresh;
        assert(self@ =~= Seq::new(BUFFSIZE as nat, |i: int| 0xffu8));
        ops
    }

    /// Asks for a clean refresh at the next start-up of the panel.
    pub fn set_clean_update(&mut self)
        ensures
            old(self)@.len() == BUFFSIZE,
            final(self)@.len() == BUFFSIZE,
            final(self).wants_clean_update(),
            final(self).is_sleeping() == old(self).is_sleeping(),
            final(self)@ == old(self)@,
            final(self).old_frame() == old(self).old_frame(),
    {
        proof {
            use_type_invariant(&*self);
        }
        self.clean_update = true;
    }
}

} // verus!
