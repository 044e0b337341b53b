//! Pad gestures: what holding, releasing and combining the pads of a bank asks of
//! its sequencer and of the display.
use vstd::prelude::*;

use crate::knob::{knob_after, knob_sets, Knob, Preshift};
use crate::browse::{clock_pulse, pulses_per_step};
use crate::midi::{parsed, parse_live, Midi, MidiError};
use crate::passive::{Event, Rd};
use crate::tui;
use crate::{PAD_COUNT, STEP_COUNT};

verus! {

broadcast use crate::lemma_appended;

/// One of the two banks.
#[derive(Copy, Clone, Debug, PartialEq, Eq, Structural)]
pub enum Bank {
    A,
    B,
}

/// What a gesture asks of a bank's sequencer.
#[derive(Copy, Clone, Debug, PartialEq, Eq, Structural)]
pub enum BankCmd {
    AssignReverse(bool),
    SaveBank,
    LoadKit(u8),
    ForceEvent(Event),
    PushEvent(Event),
    TakeRecord(Option<u8>),
    BakeRecord(u16),
    ClearPool,
    PushPool(u8),
}

/// A request to the sequencer or to the display of a bank.
#[derive(Copy, Clone, Debug)]
pub enum Output {
    Audio(Bank, BankCmd),
    Display(Bank, tui::BankCmd),
    /// a control set a parameter of a bank to `value` out of 127
    Param(Bank, Param, u8),
    /// the oneshot gain control moved to `value` out of 127
    OneshotGain(u8),
    /// the pitch wheel moved to `bend` (0 to 16383, centre 8192), for both banks
    Bend(u16),
    /// a step begins: tempo, clock tick of the sequencers and of the display
    Clock,
    /// the clock stopped, for the sequencers
    Stop,
    /// the clock stopped, for the display
    DisplayStop,
    /// the display returns to the banks
    Yield,
    /// the sample browser: put onset `onset` of the selected sample on pad `index` and
    /// jump to it
    AssignOnset { bank: Bank, index: u8, start: u64, steps: Option<u16> },
    /// open the selected entry of the browser
    Open,
    /// show the bank files around the selected one
    ShowBanks,
    /// show the samples around the selected one
    ShowSamples,
    /// show onset `index` of `count` of the selected sample
    ShowOnset { index: usize, count: usize },
}

/// The bank parameters a control drives.
#[derive(Copy, Clone, Debug, PartialEq, Eq, Structural)]
pub enum Param {
    Gain,
    Width,
    Speed,
    Roll,
    KitDrift,
    PhraseDrift,
}

/// What the pads of a bank are doing.
#[derive(Copy, Clone, Debug, PartialEq, Eq, Structural)]
pub enum BankState {
    /// playing
    Mangle,
    /// choosing a kit
    LoadKit,
    /// cutting a phrase from the recording
    BakeRecord,
    /// building a sequence of phrases; `cleared` once the old sequence was emptied
    BuildPool { cleared: bool },
}

/// What the gestures of a bank change: direction, hold and what the pads are doing.
#[derive(Copy, Clone, Debug, PartialEq, Eq, Structural)]
pub struct Mode {
    pub reverse: bool,
    pub hold: bool,
    pub state: BankState,
}

/// A press or release of a bank's control pads, or of one of its pads (after the held
/// pads were updated).
#[derive(Copy, Clone, Debug, PartialEq, Eq, Structural)]
pub enum Gesture {
    ReverseUp,
    ReverseDown,
    HoldUp,
    HoldDown,
    KitUp,
    KitDown,
    PadUp,
    PadDown,
}

/// The gesture state of one bank: its controls, pads held (in order of pressing),
/// shift, reverse, hold and what the pads are doing.
#[derive(Clone, Debug)]
pub struct BankHandler {
    pub bank: Bank,
    pub gain: Knob,
    pub speed: Knob,
    pub drift: Knob,
    pub downs: Vec<u8>,
    pub shift: bool,
    pub reverse: bool,
    pub hold: bool,
    pub state: BankState,
}

/// The bit that held pad `v` adds to a loop length based on pad `index`: the number
/// of pads strictly between them going upwards, wrapping.
pub open spec fn offset_bit(v: int, index: int) -> int {
    (v - index - 1) % (PAD_COUNT as int)
}

/// The loop length that the pads `downs` after the first encode relative to pad
/// `index`: one bit per held pad.
pub open spec fn offset_bits(downs: Seq<u8>, index: int) -> u16
    decreases downs.len(),
{
    if downs.len() <= 1 {
        0
    } else {
        offset_bits(downs.drop_last(), index) | (1u16 << (offset_bit(downs.last() as int, index) as u16))
    }
}

/// The pads are real pads.
pub open spec fn pads_ok(downs: Seq<u8>) -> bool {
    forall|i: int| 0 <= i < downs.len() ==> #[trigger] downs[i] < PAD_COUNT
}

/// The event pad input plays for the pads held: none held syncs, one jumps to its
/// onset, more loop from the first with the length the others encode.
pub open spec fn pad_event(downs: Seq<u8>) -> Event {
    if downs.len() == 0 {
        Event::Sync
    } else if downs.len() == 1 {
        Event::Hold { index: downs[0] }
    } else {
        Event::Loop { index: downs[0], len: offset_bits(downs, downs[0] as int) }
    }
}

/// The length a phrase is cut to for the pads held.
pub open spec fn bake_len(downs: Seq<u8>) -> u16 {
    if downs.len() > 1 {
        offset_bits(downs, downs[0] as int)
    } else {
        STEP_COUNT as u16
    }
}

proof fn lemma_offset_bit_range(v: u8, index: u8)
    requires
        v < PAD_COUNT,
        index < PAD_COUNT,
    ensures
        0 <= offset_bit(v as int, index as int) < PAD_COUNT,
        v as int >= index + 1 ==> offset_bit(v as int, index as int) == v - index - 1,
        (v as int) < index + 1 ==> offset_bit(v as int, index as int) == v + PAD_COUNT - 1 - index,
{
}

fn binary_offset_of(downs: &Vec<u8>, index: u8) -> (r: u16)
    requires
        pads_ok(downs@),
        index < PAD_COUNT,
    ensures
        r == offset_bits(downs@, index as int),
        r < 256,
{
    let mut acc: u16 = 0;
    let mut i: usize = 1;
    if downs.len() <= 1 {
        return 0;
    }
    assert(downs@.subrange(0, 1).len() <= 1);
    while i < downs.len()
        invariant
            1 <= i <= downs@.len(),
            pads_ok(downs@),
            index < PAD_COUNT,
            acc == offset_bits(downs@.subrange(0, i as int), index as int),
            acc < 256,
        decreases downs@.len() - i,
    {
        let v = downs[i];
        let bit: u16 = if v >= index + 1 {
            (v - (index + 1)) as u16
        } else {
            (v + PAD_COUNT as u8 - 1 - index) as u16
        };
        proof {
            lemma_offset_bit_range(v, index);
            assert(downs@.subrange(0, i + 1).drop_last() == downs@.subrange(0, i as int));
            assert(bit < 8);
            assert(acc | (1u16 << bit) < 256) by (bit_vector)
                requires
                    acc < 256,
                    bit < 8,
            ;
            assert(bit == offset_bit(v as int, index as int) as u16);
        }
        acc = acc | (1u16 << bit);
        i = i + 1;
    }
    assert(downs@.subrange(0, downs@.len() as int) == downs@);
    acc
}


/// What gesture `g` does on bank `bank` with pads `downs` held and shift `shift`: the
/// new mode and the requests it makes, in order.
pub open spec fn gesture_spec(bank: Bank, downs: Seq<u8>, shift: bool, m: Mode, g: Gesture) -> (Mode, Seq<Output>) {
    match g {
        Gesture::ReverseUp => match m.state {
            BankState::Mangle => (
                Mode { reverse: false, ..m },
                seq![Output::Audio(bank, BankCmd::AssignReverse(false))],
            ),
            BankState::BakeRecord => (
                Mode { state: BankState::Mangle, ..m },
                seq![
                    Output::Audio(bank, BankCmd::TakeRecord(first_held(downs))),
                    Output::Display(bank, tui::BankCmd::Mangle),
                ],
            ),
            _ => (m, seq![]),
        },
        Gesture::ReverseDown => if m.state == BankState::Mangle {
            if shift {
                (
                    Mode { hold: false, state: BankState::BakeRecord, ..m },
                    (if downs.len() == 0 {
                        seq![Output::Audio(bank, BankCmd::PushEvent(Event::Sync))]
                    } else {
                        seq![]
                    }) + seq![
                        Output::Audio(bank, BankCmd::BakeRecord(STEP_COUNT as u16)),
                        Output::Display(bank, tui::BankCmd::BakeRecord(None, STEP_COUNT as u16)),
                    ],
                )
            } else {
                (Mode { reverse: true, ..m }, seq![Output::Audio(bank, BankCmd::AssignReverse(true))])
            }
        } else {
            (m, seq![])
        },
        Gesture::HoldUp => match m.state {
            BankState::BuildPool { cleared } => (
                Mode { state: BankState::Mangle, ..m },
                (if !cleared {
                    seq![Output::Audio(bank, BankCmd::ClearPool), Output::Display(bank, tui::BankCmd::ClearPool)]
                } else {
                    seq![]
                }) + seq![Output::Display(bank, tui::BankCmd::Mangle)],
            ),
            _ => (m, seq![]),
        },
        Gesture::HoldDown => if m.state == BankState::Mangle {
            if shift {
                (
                    Mode { state: BankState::BuildPool { cleared: false }, ..m },
                    seq![Output::Display(bank, tui::BankCmd::PushPool(None))],
                )
            } else {
                (
                    Mode { hold: !m.hold, ..m },
                    if m.hold && downs.len() == 0 {
                        seq![Output::Audio(bank, BankCmd::PushEvent(Event::Sync))]
                    } else {
                        seq![]
                    },
                )
            }
        } else {
            (m, seq![])
        },
        Gesture::KitUp => if m.state == BankState::LoadKit {
            (Mode { state: BankState::Mangle, ..m }, seq![Output::Display(bank, tui::BankCmd::Mangle)])
        } else {
            (m, seq![])
        },
        Gesture::KitDown => if m.state == BankState::Mangle {
            if shift {
                (m, seq![Output::Audio(bank, BankCmd::SaveBank)])
            } else {
                (Mode { state: BankState::LoadKit, ..m }, seq![Output::Display(bank, tui::BankCmd::LoadKit(None))])
            }
        } else {
            (m, seq![])
        },
        Gesture::PadUp => match m.state {
            BankState::Mangle => (
                m,
                if !m.hold {
                    seq![Output::Audio(bank, BankCmd::PushEvent(pad_event(downs)))]
                } else {
                    seq![]
                },
            ),
            BankState::BakeRecord => (
                m,
                seq![
                    Output::Audio(bank, BankCmd::BakeRecord(bake_len(downs))),
                    Output::Display(bank, tui::BankCmd::BakeRecord(first_held(downs), bake_len(downs))),
                ],
            ),
            _ => (m, seq![]),
        },
        Gesture::PadDown => match m.state {
            BankState::Mangle => (m, seq![Output::Audio(bank, BankCmd::PushEvent(pad_event(downs)))]),
            BankState::LoadKit => (
                m,
                seq![
                    Output::Audio(bank, BankCmd::LoadKit(downs[0])),
                    Output::Display(bank, tui::BankCmd::LoadKit(Some(downs[0]))),
                ],
            ),
            BankState::BakeRecord => (
                m,
                seq![
                    Output::Audio(bank, BankCmd::BakeRecord(bake_len(downs))),
                    Output::Display(bank, tui::BankCmd::BakeRecord(Some(downs[0]), bake_len(downs))),
                ],
            ),
            BankState::BuildPool { cleared } => (
                Mode { state: BankState::BuildPool { cleared: true }, ..m },
                (if !cleared {
                    seq![Output::Audio(bank, BankCmd::ClearPool), Output::Display(bank, tui::BankCmd::ClearPool)]
                } else {
                    seq![]
                }) + seq![Output::Audio(bank, BankCmd::PushPool(downs.last()))],
            ),
        },
    }
}

/// The first pad held, if any.
pub open spec fn first_held(downs: Seq<u8>) -> Option<u8> {
    if downs.len() > 0 {
        Some(downs[0])
    } else {
        None
    }
}

impl BankHandler {
    /// Playing, nothing held.
    pub fn new(bank: Bank) -> (h: Self)
        ensures
            h.bank == bank,
            h.downs@ == Seq::<u8>::empty(),
            !h.shift && !h.reverse && !h.hold,
            h.state == BankState::Mangle,
            h.gain.values@ == seq![None::<u8>, None::<u8>] && h.gain.preshift == Preshift::Idle,
            h.speed.values@ == seq![None::<u8>, None::<u8>] && h.speed.preshift == Preshift::Idle,
            h.drift.values@ == seq![None::<u8>, None::<u8>] && h.drift.preshift == Preshift::Idle,
    {
        BankHandler {
            bank,
            gain: Knob::new(),
            speed: Knob::new(),
            drift: Knob::new(),
            downs: Vec::new(),
            shift: false,
            reverse: false,
            hold: false,
            state: BankState::Mangle,
        }
    }

    pub open spec fn mode(&self) -> Mode {
        Mode { reverse: self.reverse, hold: self.hold, state: self.state }
    }

    /// Everything but the mode is as in `other`.
    pub open spec fn same_but_mode(&self, other: &Self) -> bool {
        &&& self.bank == other.bank
        &&& self.gain == other.gain
        &&& self.speed == other.speed
        &&& self.drift == other.drift
        &&& self.downs@ == other.downs@
        &&& self.shift == other.shift
    }

    /// Shift pressed or released: every control is primed for takeover.
    pub fn shift(&mut self, shift: bool)
        ensures
            final(self).shift == shift,
            final(self).gain == (Knob { preshift: Preshift::Primed, ..old(self).gain }),
            final(self).speed == (Knob { preshift: Preshift::Primed, ..old(self).speed }),
            final(self).drift == (Knob { preshift: Preshift::Primed, ..old(self).drift }),
            final(self).mode() == old(self).mode(),
            final(self).bank == old(self).bank && final(self).downs@ == old(self).downs@,
    {
        self.shift = shift;
        self.gain.preshift = Preshift::Primed;
        self.speed.preshift = Preshift::Primed;
        self.drift.preshift = Preshift::Primed;
    }

    pub open spec fn wf(&self) -> bool {
        pads_ok(self.downs@)
    }

    /// The loop length encoded by the held pads after the first, relative to `index`.
    pub fn binary_offset(&self, index: u8) -> (r: u16)
        requires
            self.wf(),
            index < PAD_COUNT,
        ensures
            r == offset_bits(self.downs@, index as int),
    {
        binary_offset_of(&self.downs, index)
    }

    fn event_for_downs(&self) -> (e: Event)
        requires
            self.wf(),
        ensures
            e == pad_event(self.downs@),
    {
        if self.downs.len() == 0 {
            Event::Sync
        } else if self.downs.len() == 1 {
            Event::Hold { index: self.downs[0] }
        } else {
            let index = self.downs[0];
            Event::Loop { index, len: self.binary_offset(index) }
        }
    }

    fn bake_len(&self) -> (len: u16)
        requires
            self.wf(),
        ensures
            len == bake_len(self.downs@),
    {
        if self.downs.len() > 1 {
            self.binary_offset(self.downs[0])
        } else {
            STEP_COUNT as u16
        }
    }

    /// Pad input plays the event for the pads held, as `pad_event` says.
    pub fn pad_input(&self, out: &mut Vec<Output>)
        requires
            self.wf(),
        ensures
            final(out)@ == old(out)@.push(Output::Audio(self.bank, BankCmd::PushEvent(pad_event(self.downs@)))),
    {
        let e = self.event_for_downs();
        out.push(Output::Audio(self.bank, BankCmd::PushEvent(e)));
    }

    /// Reverse released: playing forwards again, or leaving phrase cutting by storing
    /// the phrase in the first held pad's slot (if any).
    pub fn reverse_up(&mut self, out: &mut Vec<Output>)
        ensures
            final(self).same_but_mode(old(self)),
            final(self).mode() == gesture_spec(old(self).bank, old(self).downs@, old(self).shift, old(self).mode(), Gesture::ReverseUp).0,
            final(out)@ == old(out)@ + gesture_spec(old(self).bank, old(self).downs@, old(self).shift, old(self).mode(), Gesture::ReverseUp).1,
    {
        match self.state {
            BankState::Mangle => {
                self.reverse = false;
                out.push(Output::Audio(self.bank, BankCmd::AssignReverse(false)));
            },
            BankState::BakeRecord => {
                self.state = BankState::Mangle;
                let first = if self.downs.len() > 0 {
                    Some(self.downs[0])
                } else {
                    None
                };
                out.push(Output::Audio(self.bank, BankCmd::TakeRecord(first)));
                out.push(Output::Display(self.bank, tui::BankCmd::Mangle));
            },
            _ => {},
        }
    }

    /// Reverse pressed while playing: with shift, starts cutting a phrase of the
    /// longest length (syncing first if no pad is held); otherwise plays backwards.
    pub fn reverse_down(&mut self, out: &mut Vec<Output>)
        ensures
            final(self).same_but_mode(old(self)),
            final(self).mode() == gesture_spec(old(self).bank, old(self).downs@, old(self).shift, old(self).mode(), Gesture::ReverseDown).0,
            final(out)@ == old(out)@ + gesture_spec(old(self).bank, old(self).downs@, old(self).shift, old(self).mode(), Gesture::ReverseDown).1,
    {
        if self.state == BankState::Mangle {
            if self.shift {
                self.state = BankState::BakeRecord;
                self.hold = false;
                if self.downs.len() == 0 {
                    out.push(Output::Audio(self.bank, BankCmd::PushEvent(Event::Sync)));
                }
                out.push(Output::Audio(self.bank, BankCmd::BakeRecord(STEP_COUNT as u16)));
                out.push(Output::Display(self.bank, tui::BankCmd::BakeRecord(None, STEP_COUNT as u16)));
            } else {
                self.reverse = true;
                out.push(Output::Audio(self.bank, BankCmd::AssignReverse(true)));
            }
        }
    }

    /// Hold released: leaves sequence building, emptying the sequence if no pad was
    /// pressed while building.
    pub fn hold_up(&mut self, out: &mut Vec<Output>)
        ensures
            final(self).same_but_mode(old(self)),
            final(self).mode() == gesture_spec(old(self).bank, old(self).downs@, old(self).shift, old(self).mode(), Gesture::HoldUp).0,
            final(out)@ == old(out)@ + gesture_spec(old(self).bank, old(self).downs@, old(self).shift, old(self).mode(), Gesture::HoldUp).1,
    {
        match self.state {
            BankState::BuildPool { cleared } => {
                if !cleared {
                    out.push(Output::Audio(self.bank, BankCmd::ClearPool));
                    out.push(Output::Display(self.bank, tui::BankCmd::ClearPool));
                }
                self.state = BankState::Mangle;
                out.push(Output::Display(self.bank, tui::BankCmd::Mangle));
            },
            _ => {},
        }
    }

    /// Hold pressed while playing: with shift, starts building a sequence; otherwise
    /// toggles hold, syncing when hold is let go with no pad held.
    pub fn hold_down(&mut self, out: &mut Vec<Output>)
        ensures
            final(self).same_but_mode(old(self)),
            final(self).mode() == gesture_spec(old(self).bank, old(self).downs@, old(self).shift, old(self).mode(), Gesture::HoldDown).0,
            final(out)@ == old(out)@ + gesture_spec(old(self).bank, old(self).downs@, old(self).shift, old(self).mode(), Gesture::HoldDown).1,
    {
        if self.state == BankState::Mangle {
            if self.shift {
                self.state = BankState::BuildPool { cleared: false };
                out.push(Output::Display(self.bank, tui::BankCmd::PushPool(None)));
            } else {
                self.hold = !self.hold;
                if !self.hold && self.downs.len() == 0 {
                    out.push(Output::Audio(self.bank, BankCmd::PushEvent(Event::Sync)));
                }
            }
        }
    }

    /// Kit released: leaves kit choosing.
    pub fn kit_up(&mut self, out: &mut Vec<Output>)
        ensures
            final(self).same_but_mode(old(self)),
            final(self).mode() == gesture_spec(old(self).bank, old(self).downs@, old(self).shift, old(self).mode(), Gesture::KitUp).0,
            final(out)@ == old(out)@ + gesture_spec(old(self).bank, old(self).downs@, old(self).shift, old(self).mode(), Gesture::KitUp).1,
    {
        if self.state == BankState::LoadKit {
            self.state = BankState::Mangle;
            out.push(Output::Display(self.bank, tui::BankCmd::Mangle));
        }
    }

    /// Kit pressed while playing: with shift, saves the bank; otherwise starts choosing a kit.
    pub fn kit_down(&mut self, out: &mut Vec<Output>)
        ensures
            final(self).same_but_mode(old(self)),
            final(self).mode() == gesture_spec(old(self).bank, old(self).downs@, old(self).shift, old(self).mode(), Gesture::KitDown).0,
            final(out)@ == old(out)@ + gesture_spec(old(self).bank, old(self).downs@, old(self).shift, old(self).mode(), Gesture::KitDown).1,
    {
        if self.state == BankState::Mangle {
            if self.shift {
                out.push(Output::Audio(self.bank, BankCmd::SaveBank));
            } else {
                self.state = BankState::LoadKit;
                out.push(Output::Display(self.bank, tui::BankCmd::LoadKit(None)));
            }
        }
    }

    /// A pad was released (and already dropped from the held pads): while playing
    /// without hold, pad input follows the pads still held; while cutting a phrase, its
    /// length follows them.
    pub fn pad_up(&mut self, out: &mut Vec<Output>)
        requires
            old(self).wf(),
        ensures
            final(self).same_but_mode(old(self)),
            final(self).mode() == gesture_spec(old(self).bank, old(self).downs@, old(self).shift, old(self).mode(), Gesture::PadUp).0,
            final(out)@ == old(out)@ + gesture_spec(old(self).bank, old(self).downs@, old(self).shift, old(self).mode(), Gesture::PadUp).1,
    {
        match self.state {
            BankState::Mangle => {
                if !self.hold {
                    self.pad_input(out);
                }
            },
            BankState::BakeRecord => {
                let len = self.bake_len();
                let first = if self.downs.len() > 0 {
                    Some(self.downs[0])
                } else {
                    None
                };
                out.push(Output::Audio(self.bank, BankCmd::BakeRecord(len)));
                out.push(Output::Display(self.bank, tui::BankCmd::BakeRecord(first, len)));
            },
            _ => {},
        }
    }

    /// A pad was pressed (and already added to the held pads): while playing, pad input
    /// follows the pads held; while choosing a kit, the first held pad's kit is loaded;
    /// while cutting a phrase, its length follows the pads held; while building a
    /// sequence, the pad's phrase is appended (the old sequence emptied first).
    pub fn pad_down(&mut self, out: &mut Vec<Output>)
        requires
            old(self).wf(),
            old(self).downs@.len() > 0,
        ensures
            final(self).same_but_mode(old(self)),
            final(self).mode() == gesture_spec(old(self).bank, old(self).downs@, old(self).shift, old(self).mode(), Gesture::PadDown).0,
            final(out)@ == old(out)@ + gesture_spec(old(self).bank, old(self).downs@, old(self).shift, old(self).mode(), Gesture::PadDown).1,
    {
        match self.state {
            BankState::Mangle => self.pad_input(out),
            BankState::LoadKit => {
                let first = self.downs[0];
                out.push(Output::Audio(self.bank, BankCmd::LoadKit(first)));
                out.push(Output::Display(self.bank, tui::BankCmd::LoadKit(Some(first))));
            },
            BankState::BakeRecord => {
                let len = self.bake_len();
                let first = self.downs[0];
                out.push(Output::Audio(self.bank, BankCmd::BakeRecord(len)));
                out.push(Output::Display(self.bank, tui::BankCmd::BakeRecord(Some(first), len)));
            },
            BankState::BuildPool { cleared } => {
                if !cleared {
                    self.state = BankState::BuildPool { cleared: true };
                    out.push(Output::Audio(self.bank, BankCmd::ClearPool));
                    out.push(Output::Display(self.bank, tui::BankCmd::ClearPool));
                }
                let last = self.downs[self.downs.len() - 1];
                out.push(Output::Audio(self.bank, BankCmd::PushPool(last)));
            },
        }
    }
}

/// The controls of a bank.
#[derive(Copy, Clone, Debug, PartialEq, Eq, Structural)]
pub enum Control {
    Gain,
    Speed,
    Drift,
}

/// The parameter a control sets, by shift.
pub open spec fn param_of(c: Control, shift: bool) -> Param {
    match c {
        Control::Gain => if shift { Param::Width } else { Param::Gain },
        Control::Speed => if shift { Param::Roll } else { Param::Speed },
        Control::Drift => if shift { Param::PhraseDrift } else { Param::KitDrift },
    }
}

/// The knob a control takes over through: the drift control goes through the speed
/// control's knob.
pub open spec fn knob_of(h: BankHandler, c: Control) -> Knob {
    match c {
        Control::Gain => h.gain,
        _ => h.speed,
    }
}

/// A reading `value` of control `c`: its knob moves on as `knob_after` says and, if
/// the reading sets the parameter, the parameter of the bank's shift gets `value`;
/// nothing else of the bank changes.
pub open spec fn turned(old_h: BankHandler, new_h: BankHandler, c: Control, value: u8, delta: Seq<Output>) -> bool {
    let k = knob_of(old_h, c);
    &&& knob_after(k, knob_of(new_h, c), value, old_h.shift)
    &&& (c is Gain ==> new_h.speed == old_h.speed)
    &&& (!(c is Gain) ==> new_h.gain == old_h.gain)
    &&& new_h.drift == old_h.drift
    &&& new_h.bank == old_h.bank && new_h.downs@ == old_h.downs@ && new_h.shift == old_h.shift
    &&& new_h.mode() == old_h.mode()
    &&& delta == if knob_sets(k, value, old_h.shift) {
        seq![Output::Param(old_h.bank, param_of(c, old_h.shift), value)]
    } else {
        Seq::<Output>::empty()
    }
}

impl BankHandler {
    /// A reading of the gain control: gain, or width with shift.
    pub fn gain(&mut self, value: u8, out: &mut Vec<Output>)
        ensures
            final(out)@.len() >= old(out)@.len(),
            final(out)@.subrange(0, old(out)@.len() as int) == old(out)@,
            turned(*old(self), *final(self), Control::Gain, value, final(out)@.subrange(old(out)@.len() as int, final(out)@.len() as int)),
    {
        self.turn(Control::Gain, value, out)
    }

    /// A reading of the speed control: speed, or roll with shift.
    pub fn speed(&mut self, value: u8, out: &mut Vec<Output>)
        ensures
            final(out)@.len() >= old(out)@.len(),
            final(out)@.subrange(0, old(out)@.len() as int) == old(out)@,
            turned(*old(self), *final(self), Control::Speed, value, final(out)@.subrange(old(out)@.len() as int, final(out)@.len() as int)),
    {
        self.turn(Control::Speed, value, out)
    }

    /// A reading of the drift control: kit drift, or phrase drift with shift.
    pub fn drift(&mut self, value: u8, out: &mut Vec<Output>)
        ensures
            final(out)@.len() >= old(out)@.len(),
            final(out)@.subrange(0, old(out)@.len() as int) == old(out)@,
            turned(*old(self), *final(self), Control::Drift, value, final(out)@.subrange(old(out)@.len() as int, final(out)@.len() as int)),
    {
        self.turn(Control::Drift, value, out)
    }

    /// Pad `index` is no longer held; the others stay held in order.
    pub fn release_pad(&mut self, index: u8)
        requires
            old(self).wf(),
        ensures
            final(self).wf(),
            final(self).downs@ == crate::history::without(old(self).downs@, index),
            final(self).same_but_downs(old(self)),
    {
        let mut kept: Vec<u8> = Vec::new();
        let mut i: usize = 0;
        while i < self.downs.len()
            invariant
                i <= self.downs@.len(),
                kept@ == crate::history::without(self.downs@.subrange(0, i as int), index),
            decreases self.downs@.len() - i,
        {
            assert(self.downs@.subrange(0, i + 1).drop_last() == self.downs@.subrange(0, i as int));
            if self.downs[i] != index {
                kept.push(self.downs[i]);
            }
            i = i + 1;
        }
        proof {
            assert(self.downs@.subrange(0, self.downs@.len() as int) == self.downs@);
            assert forall|j: int| 0 <= j < kept@.len() implies #[trigger] kept@[j] < PAD_COUNT by {
                lemma_without_subset(self.downs@, index, j);
            }
        }
        self.downs = kept;
    }

    /// Everything but the pads held is as in `other`.
    pub open spec fn same_but_downs(&self, other: &Self) -> bool {
        &&& self.bank == other.bank
        &&& self.gain == other.gain && self.speed == other.speed && self.drift == other.drift
        &&& self.shift == other.shift
        &&& self.mode() == other.mode()
    }

    fn turn(&mut self, c: Control, value: u8, out: &mut Vec<Output>)
        ensures
            final(out)@.len() >= old(out)@.len(),
            final(out)@.subrange(0, old(out)@.len() as int) == old(out)@,
            turned(*old(self), *final(self), c, value, final(out)@.subrange(old(out)@.len() as int, final(out)@.len() as int)),
    {
        let ghost out0 = out@;
        let set = match c {
            Control::Gain => self.gain.maybe_set(value, self.shift),
            _ => self.speed.maybe_set(value, self.shift),
        };
        if set {
            let param = match c {
                Control::Gain => if self.shift { Param::Width } else { Param::Gain },
                Control::Speed => if self.shift { Param::Roll } else { Param::Speed },
                Control::Drift => if self.shift { Param::PhraseDrift } else { Param::KitDrift },
            };
            out.push(Output::Param(self.bank, param, value));
            assert(out@.subrange(out0.len() as int, out@.len() as int) =~= seq![Output::Param(self.bank, param, value)]);
        } else {
            assert(out@.subrange(out0.len() as int, out@.len() as int) =~= Seq::<Output>::empty());
        }
    }
}

/// With distinct pads held, the loop length they encode has one bit per pad after the
/// first, each below bit 7; so more than one held pad gives a length from 1 to 127.
pub proof fn lemma_offset_bits_range(downs: Seq<u8>)
    requires
        pads_ok(downs),
        downs.no_duplicates(),
        downs.len() > 1,
    ensures
        1 <= offset_bits(downs, downs[0] as int) < STEP_COUNT,
{
    lemma_offset_bits_bounds(downs, downs[0] as int, downs.len() as int);
    assert(downs.subrange(0, downs.len() as int) == downs);
}

proof fn lemma_offset_bits_bounds(downs: Seq<u8>, index: int, n: int)
    requires
        pads_ok(downs),
        downs.no_duplicates(),
        2 <= n <= downs.len(),
        0 <= index < PAD_COUNT,
        index == downs[0],
    ensures
        1 <= offset_bits(downs.subrange(0, n), index) < 128,
    decreases n,
{
    let s = downs.subrange(0, n);
    let v = downs[n - 1];
    assert(s.drop_last() == downs.subrange(0, n - 1));
    assert(s.last() == v);
    assert(v != index) by {
        assert(downs[0] == index && n - 1 != 0);
    }
    let b = offset_bit(v as int, index) as u16;
    assert(0 <= b < 7);
    if n == 2 {
        assert(downs.subrange(0, 1).len() == 1);
        assert(offset_bits(downs.subrange(0, 1), index) == 0);
        assert(1 <= (0u16 | (1u16 << b)) < 128) by (bit_vector)
            requires
                b < 7,
        ;
    } else {
        lemma_offset_bits_bounds(downs, index, n - 1);
        let prev = offset_bits(downs.subrange(0, n - 1), index);
        assert(1 <= (prev | (1u16 << b)) < 128) by (bit_vector)
            requires
                1 <= prev < 128,
                b < 7,
        ;
    }
}

/// MIDI note numbers of the controls.
pub const KEY_KIT_A: u8 = 48;
pub const KEY_HOLD_A: u8 = 49;
pub const KEY_REVERSE_A: u8 = 50;
pub const KEY_SHIFT_A: u8 = 51;
/// the first of the notes of the pads of bank A, which run downwards
pub const KEY_BANK_A_START: u8 = 52;
/// the first of the notes of the pads of bank B
pub const KEY_BANK_B_START: u8 = 60;
pub const KEY_SHIFT_B: u8 = 68;
pub const KEY_REVERSE_B: u8 = 69;
pub const KEY_HOLD_B: u8 = 70;
pub const KEY_KIT_B: u8 = 71;
pub const KEY_OPEN: u8 = 72;

/// MIDI controller numbers of the controls.
pub const CTRL_GAIN_ONESHOT: u8 = 83;
pub const CTRL_GAIN_A: u8 = 102;
pub const CTRL_SPEED_A: u8 = 103;
pub const CTRL_DRIFT_A: u8 = 28;
pub const CTRL_GAIN_B: u8 = 105;
pub const CTRL_SPEED_B: u8 = 106;
pub const CTRL_DRIFT_B: u8 = 29;

/// The pad of bank A that a note plays: its pads run downwards.
pub open spec fn pad_of_a(key: u8) -> u8 {
    (KEY_BANK_A_START + PAD_COUNT - 1 - key) as u8
}

/// The pad of bank B that a note plays.
pub open spec fn pad_of_b(key: u8) -> u8 {
    (key - KEY_BANK_B_START) as u8
}

pub open spec fn is_bank_a_key(key: u8) -> bool {
    KEY_BANK_A_START <= key < KEY_BANK_A_START + PAD_COUNT
}

pub open spec fn is_bank_b_key(key: u8) -> bool {
    KEY_BANK_B_START <= key < KEY_BANK_B_START + PAD_COUNT
}

/// A position in a listing of `count` entries (the entries themselves stay with the caller).
#[derive(Copy, Clone, Debug, PartialEq, Eq, Structural)]
pub struct Browser {
    pub file_index: usize,
    pub count: usize,
}

impl Browser {
    pub open spec fn wf(&self) -> bool {
        self.file_index < self.count
    }
}

/// What the controls are doing as a whole.
#[derive(Clone, Debug)]
pub enum GlobalState {
    /// the banks have the controls
    Yield,
    /// browsing bank files for bank `bank`
    LoadBd { bank: Bank },
    /// browsing samples
    LoadRd,
    /// choosing among the onsets `rd` of the selected sample
    LoadOnset { rd: Rd, onset_index: usize },
}

/// The controls of both banks and of the browser.
pub struct InputHandler {
    pub bank_a: BankHandler,
    pub bank_b: BankHandler,
    pub bd_cx: Option<Browser>,
    pub rd_cx: Option<Browser>,
    pub banks_maybe_focus: Option<Bank>,
    pub deafen: bool,
    pub clock: u16,
    pub state: GlobalState,
}

/// A pad of a bank pressed: it is held; with the banks in control the bank answers
/// the press; while choosing an onset, the onset goes on the pad; while browsing, the
/// banks take the controls back first. The display is told of the press.
pub open spec fn press_spec(
    b: Bank,
    old_h: BankHandler,
    new_h: BankHandler,
    index: u8,
    old_state: GlobalState,
    new_state: GlobalState,
    delta: Seq<Output>,
) -> bool {
    let downs = old_h.downs@.push(index);
    &&& new_h.downs@ == downs
    &&& new_h.bank == old_h.bank && new_h.shift == old_h.shift
    &&& new_h.gain == old_h.gain && new_h.speed == old_h.speed && new_h.drift == old_h.drift
    &&& match old_state {
        GlobalState::Yield => {
            let (m, o) = gesture_spec(b, downs, old_h.shift, old_h.mode(), Gesture::PadDown);
            &&& new_h.mode() == m
            &&& new_state is Yield
            &&& delta == o.push(Output::Display(b, tui::BankCmd::Pad(index, true)))
        },
        GlobalState::LoadOnset { rd, onset_index } => {
            &&& new_h.mode() == old_h.mode()
            &&& new_state == old_state
            &&& delta == seq![
                Output::AssignOnset { bank: b, index, start: rd.onsets@[onset_index as int], steps: rd.steps },
                Output::Display(b, tui::BankCmd::Pad(index, true)),
            ]
        },
        _ => {
            let (m, o) = gesture_spec(b, downs, old_h.shift, old_h.mode(), Gesture::PadDown);
            &&& new_h.mode() == m
            &&& new_state is Yield
            &&& delta == o.push(Output::Yield).push(Output::Display(b, tui::BankCmd::Pad(index, true)))
        },
    }
}

/// A pad of a bank released: it is no longer held; with the banks in control the
/// bank answers the release; while choosing an onset, the bank syncs; while browsing,
/// the bank syncs and the banks take the controls back. The display is told.
pub open spec fn release_spec(
    b: Bank,
    old_h: BankHandler,
    new_h: BankHandler,
    index: u8,
    old_state: GlobalState,
    new_state: GlobalState,
    delta: Seq<Output>,
) -> bool {
    let downs = crate::history::without(old_h.downs@, index);
    &&& new_h.downs@ == downs
    &&& new_h.bank == old_h.bank && new_h.shift == old_h.shift
    &&& new_h.gain == old_h.gain && new_h.speed == old_h.speed && new_h.drift == old_h.drift
    &&& match old_state {
        GlobalState::Yield => {
            let (m, o) = gesture_spec(b, downs, old_h.shift, old_h.mode(), Gesture::PadUp);
            &&& new_h.mode() == m
            &&& new_state is Yield
            &&& delta == o.push(Output::Display(b, tui::BankCmd::Pad(index, false)))
        },
        GlobalState::LoadOnset { .. } => {
            &&& new_h.mode() == old_h.mode()
            &&& new_state == old_state
            &&& delta == seq![
                Output::Audio(b, BankCmd::ForceEvent(Event::Sync)),
                Output::Display(b, tui::BankCmd::Pad(index, false)),
            ]
        },
        _ => {
            &&& new_h.mode() == old_h.mode()
            &&& new_state is Yield
            &&& delta == seq![
                Output::Audio(b, BankCmd::ForceEvent(Event::Sync)),
                Output::Yield,
                Output::Display(b, tui::BankCmd::Pad(index, false)),
            ]
        },
    }
}

/// A control gesture (not a pad) of a bank: answered only while the banks have the controls.
pub open spec fn control_spec(
    b: Bank,
    old_h: BankHandler,
    new_h: BankHandler,
    g: Gesture,
    yield_state: bool,
    delta: Seq<Output>,
) -> bool {
    &&& new_h.same_but_mode(&old_h)
    &&& if yield_state {
        let (m, o) = gesture_spec(b, old_h.downs@, old_h.shift, old_h.mode(), g);
        new_h.mode() == m && delta == o
    } else {
        new_h.mode() == old_h.mode() && delta == Seq::<Output>::empty()
    }
}

/// An onset being chosen is one of the sample's onsets.
pub open spec fn state_ok(s: GlobalState) -> bool {
    s matches GlobalState::LoadOnset { rd, onset_index } ==> onset_index < rd.onsets@.len()
}

fn press(b: Bank, h: &mut BankHandler, index: u8, state: &mut GlobalState, out: &mut Vec<Output>)
    requires
        old(h).wf(),
        old(h).bank == b,
        index < PAD_COUNT,
        state_ok(*old(state)),
    ensures
        final(h).wf(),
        final(out)@.len() >= old(out)@.len(),
        final(out)@.subrange(0, old(out)@.len() as int) == old(out)@,
        press_spec(b, *old(h), *final(h), index, *old(state), *final(state), final(out)@.subrange(old(out)@.len() as int, final(out)@.len() as int)),
{
    let ghost out0 = out@;
    let ghost h0 = *h;
    let ghost s0 = *state;
    h.downs.push(index);
    proof {
        assert forall|i: int| 0 <= i < h.downs@.len() implies #[trigger] h.downs@[i] < PAD_COUNT by {
            if i < h0.downs@.len() {
                assert(h.downs@[i] == h0.downs@[i]);
            }
        }
    }
    let ghost h1 = *h;
    let ghost g = gesture_spec(b, h1.downs@, h1.shift, h1.mode(), Gesture::PadDown);
    match &*state {
        GlobalState::Yield => {
            h.pad_down(out);
            assert(out@ == out0 + g.1);
        },
        GlobalState::LoadOnset { rd, onset_index } => {
            let start = rd.onsets[*onset_index];
            out.push(Output::AssignOnset { bank: b, index, start, steps: rd.steps });
        },
        _ => {
            h.pad_down(out);
            assert(out@ == out0 + g.1);
            out.push(Output::Yield);
            *state = GlobalState::Yield;
        },
    }
    out.push(Output::Display(b, tui::BankCmd::Pad(index, true)));
    proof {
        let delta = out@.subrange(out0.len() as int, out@.len() as int);
        match s0 {
            GlobalState::Yield => {
                assert(delta =~= g.1.push(Output::Display(b, tui::BankCmd::Pad(index, true))));
            },
            GlobalState::LoadOnset { rd, onset_index } => {
                assert(delta =~= seq![
                    Output::AssignOnset { bank: b, index, start: rd.onsets@[onset_index as int], steps: rd.steps },
                    Output::Display(b, tui::BankCmd::Pad(index, true)),
                ]);
            },
            _ => {
                assert(delta =~= g.1.push(Output::Yield).push(Output::Display(b, tui::BankCmd::Pad(index, true))));
            },
        }
    }
}

fn release(b: Bank, h: &mut BankHandler, index: u8, state: &mut GlobalState, out: &mut Vec<Output>)
    requires
        old(h).wf(),
        old(h).bank == b,
    ensures
        final(h).wf(),
        final(out)@.len() >= old(out)@.len(),
        final(out)@.subrange(0, old(out)@.len() as int) == old(out)@,
        release_spec(b, *old(h), *final(h), index, *old(state), *final(state), final(out)@.subrange(old(out)@.len() as int, final(out)@.len() as int)),
{
    let ghost out0 = out@;
    let ghost h0 = *h;
    let ghost s0 = *state;
    h.release_pad(index);
    let ghost h1 = *h;
    let ghost g = gesture_spec(b, h1.downs@, h1.shift, h1.mode(), Gesture::PadUp);
    match &*state {
        GlobalState::Yield => {
            h.pad_up(out);
            assert(out@ == out0 + g.1);
        },
        GlobalState::LoadOnset { .. } => {
            out.push(Output::Audio(b, BankCmd::ForceEvent(Event::Sync)));
        },
        _ => {
            out.push(Output::Audio(b, BankCmd::ForceEvent(Event::Sync)));
            out.push(Output::Yield);
            *state = GlobalState::Yield;
        },
    }
    out.push(Output::Display(b, tui::BankCmd::Pad(index, false)));
    proof {
        let delta = out@.subrange(out0.len() as int, out@.len() as int);
        match s0 {
            GlobalState::Yield => {
                assert(delta =~= g.1.push(Output::Display(b, tui::BankCmd::Pad(index, false))));
            },
            GlobalState::LoadOnset { .. } => {
                assert(delta =~= seq![
                    Output::Audio(b, BankCmd::ForceEvent(Event::Sync)),
                    Output::Display(b, tui::BankCmd::Pad(index, false)),
                ]);
            },
            _ => {
                assert(delta =~= seq![
                    Output::Audio(b, BankCmd::ForceEvent(Event::Sync)),
                    Output::Yield,
                    Output::Display(b, tui::BankCmd::Pad(index, false)),
                ]);
            },
        }
    }
}

proof fn lemma_without_subset(s: Seq<u8>, x: u8, j: int)
    requires
        pads_ok(s),
        0 <= j < crate::history::without(s, x).len(),
    ensures
        crate::history::without(s, x)[j] < PAD_COUNT,
{
    crate::history::lemma_without_kept(s, x, j);
}

impl InputHandler {
    pub open spec fn inv(&self) -> bool {
        &&& self.bank_a.wf() && self.bank_a.bank == Bank::A
        &&& self.bank_b.wf() && self.bank_b.bank == Bank::B
        &&& state_ok(self.state)
        &&& self.clock < pulses_per_step()
    }

    /// Both banks playing, nothing browsed.
    pub fn new() -> (h: Self)
        ensures
            h.inv(),
            h.state is Yield,
            h.bd_cx is None && h.rd_cx is None && h.banks_maybe_focus is None,
            !h.deafen && h.clock == 0,
            h.bank_a.bank == Bank::A && h.bank_b.bank == Bank::B,
            h.bank_a.downs@.len() == 0 && h.bank_b.downs@.len() == 0,
            h.bank_a.mode() == (Mode { reverse: false, hold: false, state: BankState::Mangle }),
            h.bank_b.mode() == (Mode { reverse: false, hold: false, state: BankState::Mangle }),
            !h.bank_a.shift && !h.bank_b.shift,
    {
        InputHandler {
            bank_a: BankHandler::new(Bank::A),
            bank_b: BankHandler::new(Bank::B),
            bd_cx: None,
            rd_cx: None,
            banks_maybe_focus: None,
            deafen: false,
            clock: 0,
            state: GlobalState::Yield,
        }
    }

    /// A note pressed, as `note_on_spec` says.
    pub fn note_on(&mut self, key: u8, out: &mut Vec<Output>)
        requires
            old(self).inv(),
            key == KEY_REVERSE_B || key == KEY_KIT_B ==> old(self).can_browse(),
        ensures
            final(self).inv(),
            final(out)@.len() >= old(out)@.len(),
            final(out)@.subrange(0, old(out)@.len() as int) == old(out)@,
            note_on_spec(*old(self), *final(self), key, final(out)@.subrange(old(out)@.len() as int, final(out)@.len() as int)),
    {
        let ghost out0 = out@;
        if key == KEY_OPEN {
            out.push(Output::Open);
            assert(out@.subrange(out0.len() as int, out@.len() as int) =~= seq![Output::Open]);
        } else if key == KEY_SHIFT_A {
            self.shift_on(Bank::A);
            assert(out@.subrange(out0.len() as int, out@.len() as int) =~= Seq::<Output>::empty());
        } else if key == KEY_SHIFT_B {
            self.shift_on(Bank::B);
            assert(out@.subrange(out0.len() as int, out@.len() as int) =~= Seq::<Output>::empty());
        } else if key == KEY_REVERSE_A {
            self.bank_gesture(Bank::A, Gesture::ReverseDown, out);
        } else if key == KEY_HOLD_A {
            self.bank_gesture(Bank::A, Gesture::HoldDown, out);
        } else if key == KEY_KIT_A {
            self.bank_gesture(Bank::A, Gesture::KitDown, out);
        } else if key == KEY_HOLD_B {
            self.bank_gesture(Bank::B, Gesture::HoldDown, out);
        } else if key == KEY_REVERSE_B {
            if let GlobalState::Yield = self.state {
                self.bank_gesture(Bank::B, Gesture::ReverseDown, out);
            } else {
                self.decrement(out);
            }
        } else if key == KEY_KIT_B {
            if let GlobalState::Yield = self.state {
                self.bank_gesture(Bank::B, Gesture::KitDown, out);
            } else {
                self.increment(out);
            }
        } else if KEY_BANK_A_START <= key && key < KEY_BANK_A_START + PAD_COUNT as u8 {
            let index = KEY_BANK_A_START + PAD_COUNT as u8 - 1 - key;
            press(Bank::A, &mut self.bank_a, index, &mut self.state, out);
        } else if KEY_BANK_B_START <= key && key < KEY_BANK_B_START + PAD_COUNT as u8 {
            let index = key - KEY_BANK_B_START;
            press(Bank::B, &mut self.bank_b, index, &mut self.state, out);
        } else {
            assert(out@.subrange(out0.len() as int, out@.len() as int) =~= Seq::<Output>::empty());
        }
    }

    /// A note released, as `note_off_spec` says.
    pub fn note_off(&mut self, key: u8, out: &mut Vec<Output>)
        requires
            old(self).inv(),
        ensures
            final(self).inv(),
            final(out)@.len() >= old(out)@.len(),
            final(out)@.subrange(0, old(out)@.len() as int) == old(out)@,
            note_off_spec(*old(self), *final(self), key, final(out)@.subrange(old(out)@.len() as int, final(out)@.len() as int)),
    {
        let ghost out0 = out@;
        if key == KEY_SHIFT_A {
            self.shift_off(Bank::A);
            assert(out@.subrange(out0.len() as int, out@.len() as int) =~= Seq::<Output>::empty());
        } else if key == KEY_SHIFT_B {
            self.shift_off(Bank::B);
            assert(out@.subrange(out0.len() as int, out@.len() as int) =~= Seq::<Output>::empty());
        } else if key == KEY_REVERSE_A {
            self.bank_gesture(Bank::A, Gesture::ReverseUp, out);
        } else if key == KEY_REVERSE_B {
            self.bank_gesture(Bank::B, Gesture::ReverseUp, out);
        } else if key == KEY_HOLD_A {
            self.bank_gesture(Bank::A, Gesture::HoldUp, out);
        } else if key == KEY_HOLD_B {
            self.bank_gesture(Bank::B, Gesture::HoldUp, out);
        } else if key == KEY_KIT_A {
            self.bank_gesture(Bank::A, Gesture::KitUp, out);
        } else if key == KEY_KIT_B {
            self.bank_gesture(Bank::B, Gesture::KitUp, out);
        } else if KEY_BANK_A_START <= key && key < KEY_BANK_A_START + PAD_COUNT as u8 {
            let index = KEY_BANK_A_START + PAD_COUNT as u8 - 1 - key;
            release(Bank::A, &mut self.bank_a, index, &mut self.state, out);
        } else if KEY_BANK_B_START <= key && key < KEY_BANK_B_START + PAD_COUNT as u8 {
            let index = key - KEY_BANK_B_START;
            release(Bank::B, &mut self.bank_b, index, &mut self.state, out);
        } else {
            assert(out@.subrange(out0.len() as int, out@.len() as int) =~= Seq::<Output>::empty());
        }
    }

    /// Shift of bank `b` pressed: the bank is primed and focused, and a bank file being
    /// chosen goes to it.
    fn shift_on(&mut self, b: Bank)
        requires
            old(self).inv(),
        ensures
            final(self).inv(),
            shift_on_spec(*old(self), *final(self), b),
    {
        match b {
            Bank::A => self.bank_a.shift(true),
            Bank::B => self.bank_b.shift(true),
        }
        self.banks_maybe_focus = Some(b);
        if let GlobalState::LoadBd { bank } = &mut self.state {
            *bank = b;
        }
    }

    /// Shift of bank `b` released: the bank is primed, and the focus goes to the other
    /// bank if its shift is held.
    fn shift_off(&mut self, b: Bank)
        requires
            old(self).inv(),
        ensures
            final(self).inv(),
            shift_off_spec(*old(self), *final(self), b),
    {
        match b {
            Bank::A => {
                self.bank_a.shift(false);
                self.banks_maybe_focus = if self.bank_b.shift {
                    Some(Bank::B)
                } else {
                    None
                };
            },
            Bank::B => {
                self.bank_b.shift(false);
                self.banks_maybe_focus = if self.bank_a.shift {
                    Some(Bank::A)
                } else {
                    None
                };
            },
        }
    }

    /// A control gesture of bank `b`, answered only while the banks have the controls.
    fn bank_gesture(&mut self, b: Bank, g: Gesture, out: &mut Vec<Output>)
        requires
            old(self).inv(),
            !(g is PadUp) && !(g is PadDown),
        ensures
            final(self).inv(),
            final(out)@.len() >= old(out)@.len(),
            final(out)@.subrange(0, old(out)@.len() as int) == old(out)@,
            control_spec(b, old(self).handler(b), final(self).handler(b), g, old(self).state is Yield,
                final(out)@.subrange(old(out)@.len() as int, final(out)@.len() as int)),
            final(self).handler(other(b)) == old(self).handler(other(b)),
            final(self).state == old(self).state,
            final(self).same_browsing(old(self)),
    {
        let ghost out0 = out@;
        if let GlobalState::Yield = self.state {
            let h = match b {
                Bank::A => &mut self.bank_a,
                Bank::B => &mut self.bank_b,
            };
            match g {
                Gesture::ReverseUp => h.reverse_up(out),
                Gesture::ReverseDown => h.reverse_down(out),
                Gesture::HoldUp => h.hold_up(out),
                Gesture::HoldDown => h.hold_down(out),
                Gesture::KitUp => h.kit_up(out),
                _ => h.kit_down(out),
            }
        } else {
            assert(out@.subrange(out0.len() as int, out@.len() as int) =~= Seq::<Output>::empty());
        }
    }
}

/// Shift of bank `b` pressed.
pub open spec fn shift_on_spec(old_h: InputHandler, new_h: InputHandler, b: Bank) -> bool {
    &&& new_h.banks_maybe_focus == Some(b)
    &&& shifted(old_h.handler(b), new_h.handler(b), true)
    &&& new_h.handler(other(b)) == old_h.handler(other(b))
    &&& new_h.state == (match old_h.state {
        GlobalState::LoadBd { .. } => GlobalState::LoadBd { bank: b },
        s => s,
    })
    &&& new_h.bd_cx == old_h.bd_cx && new_h.rd_cx == old_h.rd_cx
    &&& new_h.deafen == old_h.deafen && new_h.clock == old_h.clock
}

/// Shift of bank `b` released.
pub open spec fn shift_off_spec(old_h: InputHandler, new_h: InputHandler, b: Bank) -> bool {
    &&& new_h.banks_maybe_focus == (if old_h.handler(other(b)).shift { Some(other(b)) } else { None })
    &&& shifted(old_h.handler(b), new_h.handler(b), false)
    &&& new_h.handler(other(b)) == old_h.handler(other(b))
    &&& new_h.state == old_h.state
    &&& new_h.bd_cx == old_h.bd_cx && new_h.rd_cx == old_h.rd_cx
    &&& new_h.deafen == old_h.deafen && new_h.clock == old_h.clock
}

/// The bank's shift became `shift` and each of its controls is primed for takeover;
/// nothing else of it changed.
pub open spec fn shifted(old_h: BankHandler, new_h: BankHandler, shift: bool) -> bool {
    &&& new_h.shift == shift
    &&& new_h.gain == (Knob { preshift: Preshift::Primed, ..old_h.gain })
    &&& new_h.speed == (Knob { preshift: Preshift::Primed, ..old_h.speed })
    &&& new_h.drift == (Knob { preshift: Preshift::Primed, ..old_h.drift })
    &&& new_h.mode() == old_h.mode()
    &&& new_h.bank == old_h.bank && new_h.downs@ == old_h.downs@
}

/// The gesture a control note asks for, if `key` is one of bank `b`'s control notes.
pub open spec fn control_gesture(key: u8, down: bool) -> Option<(Bank, Gesture)> {
    if key == KEY_REVERSE_A {
        Some((Bank::A, if down { Gesture::ReverseDown } else { Gesture::ReverseUp }))
    } else if key == KEY_HOLD_A {
        Some((Bank::A, if down { Gesture::HoldDown } else { Gesture::HoldUp }))
    } else if key == KEY_KIT_A {
        Some((Bank::A, if down { Gesture::KitDown } else { Gesture::KitUp }))
    } else if key == KEY_REVERSE_B {
        Some((Bank::B, if down { Gesture::ReverseDown } else { Gesture::ReverseUp }))
    } else if key == KEY_HOLD_B {
        Some((Bank::B, if down { Gesture::HoldDown } else { Gesture::HoldUp }))
    } else if key == KEY_KIT_B {
        Some((Bank::B, if down { Gesture::KitDown } else { Gesture::KitUp }))
    } else {
        None
    }
}

/// The bank and pad a pad note plays, if `key` is a pad note.
pub open spec fn pad_key(key: u8) -> Option<(Bank, u8)> {
    if is_bank_a_key(key) {
        Some((Bank::A, pad_of_a(key)))
    } else if is_bank_b_key(key) {
        Some((Bank::B, pad_of_b(key)))
    } else {
        None
    }
}

/// A control gesture of bank `b` as a whole: the bank answers it (while the banks have
/// the controls) and nothing else changes.
pub open spec fn gesture_step(old_h: InputHandler, new_h: InputHandler, b: Bank, g: Gesture, delta: Seq<Output>) -> bool {
    &&& control_spec(b, old_h.handler(b), new_h.handler(b), g, old_h.state is Yield, delta)
    &&& new_h.handler(other(b)) == old_h.handler(other(b))
    &&& new_h.state == old_h.state
    &&& new_h.same_browsing(&old_h)
}

/// A note pressed: the open key opens the selected entry; a shift key shifts its bank;
/// while browsing, reverse and kit of bank B move the selection back and forth; the
/// other control keys are gestures of their bank; a pad key is a press of the pad.
pub open spec fn note_on_spec(old_h: InputHandler, new_h: InputHandler, key: u8, delta: Seq<Output>) -> bool {
    if key == KEY_OPEN {
        delta == seq![Output::Open] && new_h.unchanged(&old_h)
    } else if key == KEY_SHIFT_A || key == KEY_SHIFT_B {
        delta == Seq::<Output>::empty() && shift_on_spec(old_h, new_h, if key == KEY_SHIFT_A { Bank::A } else { Bank::B })
    } else if (key == KEY_REVERSE_B || key == KEY_KIT_B) && !(old_h.state is Yield) {
        browse_spec(old_h, new_h, key == KEY_KIT_B, delta)
    } else if control_gesture(key, true) is Some {
        let (b, g) = control_gesture(key, true)->Some_0;
        gesture_step(old_h, new_h, b, g, delta)
    } else if pad_key(key) is Some {
        let (b, index) = pad_key(key)->Some_0;
        &&& press_spec(b, old_h.handler(b), new_h.handler(b), index, old_h.state, new_h.state, delta)
        &&& new_h.handler(other(b)) == old_h.handler(other(b))
        &&& new_h.same_browsing(&old_h)
    } else {
        delta == Seq::<Output>::empty() && new_h.unchanged(&old_h)
    }
}

/// A note released: a shift key lets go of its bank's shift; the other control keys
/// are gestures of their bank; a pad key is a release of the pad.
pub open spec fn note_off_spec(old_h: InputHandler, new_h: InputHandler, key: u8, delta: Seq<Output>) -> bool {
    if key == KEY_SHIFT_A || key == KEY_SHIFT_B {
        delta == Seq::<Output>::empty() && shift_off_spec(old_h, new_h, if key == KEY_SHIFT_A { Bank::A } else { Bank::B })
    } else if control_gesture(key, false) is Some {
        let (b, g) = control_gesture(key, false)->Some_0;
        gesture_step(old_h, new_h, b, g, delta)
    } else if pad_key(key) is Some {
        let (b, index) = pad_key(key)->Some_0;
        &&& release_spec(b, old_h.handler(b), new_h.handler(b), index, old_h.state, new_h.state, delta)
        &&& new_h.handler(other(b)) == old_h.handler(other(b))
        &&& new_h.same_browsing(&old_h)
    } else {
        delta == Seq::<Output>::empty() && new_h.unchanged(&old_h)
    }
}

/// The other bank.
pub open spec fn other(b: Bank) -> Bank {
    match b {
        Bank::A => Bank::B,
        Bank::B => Bank::A,
    }
}

impl InputHandler {
    pub open spec fn handler(&self, b: Bank) -> BankHandler {
        match b {
            Bank::A => self.bank_a,
            Bank::B => self.bank_b,
        }
    }

    /// The browser positions, focus, deafening and clock are as in `other`.
    pub open spec fn same_browsing(&self, other: &Self) -> bool {
        &&& self.bd_cx == other.bd_cx
        &&& self.rd_cx == other.rd_cx
        &&& self.banks_maybe_focus == other.banks_maybe_focus
        &&& self.deafen == other.deafen
        &&& self.clock == other.clock
    }

    pub open spec fn unchanged(&self, other: &Self) -> bool {
        &&& self.same_browsing(other)
        &&& self.bank_a == other.bank_a
        &&& self.bank_b == other.bank_b
        &&& self.state == other.state
    }

    /// The browser can move: the listing being browsed exists and holds the position
    /// (so it is not empty).
    pub open spec fn can_browse(&self) -> bool {
        match self.state {
            GlobalState::LoadBd { .. } => self.bd_cx matches Some(c) && c.wf(),
            GlobalState::LoadRd => self.rd_cx matches Some(c) && c.wf(),
            GlobalState::LoadOnset { .. } => self.rd_cx is Some,
            GlobalState::Yield => true,
        }
    }
}

/// Moving the browser one entry forwards (`up`) or backwards, wrapping: in a listing
/// the selection moves and the listing is shown again; among onsets the onset moves
/// and is shown.
pub open spec fn browse_spec(old_h: InputHandler, new_h: InputHandler, up: bool, delta: Seq<Output>) -> bool {
    &&& new_h.bank_a == old_h.bank_a && new_h.bank_b == old_h.bank_b
    &&& new_h.banks_maybe_focus == old_h.banks_maybe_focus
    &&& new_h.deafen == old_h.deafen && new_h.clock == old_h.clock
    &&& match old_h.state {
        GlobalState::LoadBd { .. } => {
            let c = old_h.bd_cx->Some_0;
            let i = if up { crate::browse::next_index(c.file_index as int, c.count as int) } else {
                crate::browse::prev_index(c.file_index as int, c.count as int)
            };
            &&& new_h.bd_cx == Some(Browser { file_index: i as usize, count: c.count })
            &&& new_h.rd_cx == old_h.rd_cx && new_h.state == old_h.state
            &&& delta == seq![Output::ShowBanks]
        },
        GlobalState::LoadRd => {
            let c = old_h.rd_cx->Some_0;
            let i = if up { crate::browse::next_index(c.file_index as int, c.count as int) } else {
                crate::browse::prev_index(c.file_index as int, c.count as int)
            };
            &&& new_h.rd_cx == Some(Browser { file_index: i as usize, count: c.count })
            &&& new_h.bd_cx == old_h.bd_cx && new_h.state == old_h.state
            &&& delta == seq![Output::ShowSamples]
        },
        GlobalState::LoadOnset { rd, onset_index } => {
            let n = rd.onsets@.len() as int;
            let i = if up { crate::browse::next_index(onset_index as int, n) } else {
                crate::browse::prev_index(onset_index as int, n)
            };
            &&& new_h.state == GlobalState::LoadOnset { rd, onset_index: i as usize }
            &&& new_h.bd_cx == old_h.bd_cx && new_h.rd_cx == old_h.rd_cx
            &&& delta == seq![Output::ShowOnset { index: i as usize, count: n as usize }]
        },
        GlobalState::Yield => new_h.unchanged(&old_h) && delta == Seq::<Output>::empty(),
    }
}

impl InputHandler {
    /// Moves the browser one entry backwards, as `browse_spec` says.
    pub fn decrement(&mut self, out: &mut Vec<Output>)
        requires
            old(self).inv(),
            old(self).can_browse(),
        ensures
            final(self).inv(),
            final(out)@.len() >= old(out)@.len(),
            final(out)@.subrange(0, old(out)@.len() as int) == old(out)@,
            browse_spec(*old(self), *final(self), false, final(out)@.subrange(old(out)@.len() as int, final(out)@.len() as int)),
    {
        self.browse(false, out)
    }

    /// Moves the browser one entry forwards, as `browse_spec` says.
    pub fn increment(&mut self, out: &mut Vec<Output>)
        requires
            old(self).inv(),
            old(self).can_browse(),
        ensures
            final(self).inv(),
            final(out)@.len() >= old(out)@.len(),
            final(out)@.subrange(0, old(out)@.len() as int) == old(out)@,
            browse_spec(*old(self), *final(self), true, final(out)@.subrange(old(out)@.len() as int, final(out)@.len() as int)),
    {
        self.browse(true, out)
    }

    fn browse(&mut self, up: bool, out: &mut Vec<Output>)
        requires
            old(self).inv(),
            old(self).can_browse(),
        ensures
            final(self).inv(),
            final(out)@.len() >= old(out)@.len(),
            final(out)@.subrange(0, old(out)@.len() as int) == old(out)@,
            browse_spec(*old(self), *final(self), up, final(out)@.subrange(old(out)@.len() as int, final(out)@.len() as int)),
    {
        let ghost out0 = out@;
        match &mut self.state {
            GlobalState::LoadBd { .. } => {
                if let Some(c) = self.bd_cx {
                    let i = if up { crate::browse::increment(c.file_index, c.count) } else {
                        crate::browse::decrement(c.file_index, c.count)
                    };
                    self.bd_cx = Some(Browser { file_index: i, count: c.count });
                    out.push(Output::ShowBanks);
                    assert(out@.subrange(out0.len() as int, out@.len() as int) =~= seq![Output::ShowBanks]);
                }
            },
            GlobalState::LoadRd => {
                if let Some(c) = self.rd_cx {
                    let i = if up { crate::browse::increment(c.file_index, c.count) } else {
                        crate::browse::decrement(c.file_index, c.count)
                    };
                    self.rd_cx = Some(Browser { file_index: i, count: c.count });
                    out.push(Output::ShowSamples);
                    assert(out@.subrange(out0.len() as int, out@.len() as int) =~= seq![Output::ShowSamples]);
                }
            },
            GlobalState::LoadOnset { rd, onset_index } => {
                let n = rd.onsets.len();
                let i = if up { crate::browse::increment(*onset_index, n) } else {
                    crate::browse::decrement(*onset_index, n)
                };
                *onset_index = i;
                out.push(Output::ShowOnset { index: i, count: n });
                assert(out@.subrange(out0.len() as int, out@.len() as int) =~= seq![Output::ShowOnset { index: i, count: n }]);
            },
            GlobalState::Yield => {
                assert(out@.subrange(out0.len() as int, out@.len() as int) =~= Seq::<Output>::empty());
            },
        }
    }
}

/// The bank and control a controller number drives, if any.
pub open spec fn control_of(c: u8) -> Option<(Bank, Control)> {
    if c == CTRL_GAIN_A {
        Some((Bank::A, Control::Gain))
    } else if c == CTRL_SPEED_A {
        Some((Bank::A, Control::Speed))
    } else if c == CTRL_DRIFT_A {
        Some((Bank::A, Control::Drift))
    } else if c == CTRL_GAIN_B {
        Some((Bank::B, Control::Gain))
    } else if c == CTRL_SPEED_B {
        Some((Bank::B, Control::Speed))
    } else if c == CTRL_DRIFT_B {
        Some((Bank::B, Control::Drift))
    } else {
        None
    }
}

/// A controller moved to `value`: the oneshot gain control sets the oneshot gain; a
/// bank control is turned as `turned` says; others do nothing.
pub open spec fn controller_spec(old_h: InputHandler, new_h: InputHandler, c: u8, value: u8, delta: Seq<Output>) -> bool {
    if c == CTRL_GAIN_ONESHOT {
        delta == seq![Output::OneshotGain(value)] && new_h.unchanged(&old_h)
    } else if control_of(c) is Some {
        let (b, k) = control_of(c)->Some_0;
        &&& turned(old_h.handler(b), new_h.handler(b), k, value, delta)
        &&& new_h.handler(other(b)) == old_h.handler(other(b))
        &&& new_h.state == old_h.state
        &&& new_h.same_browsing(&old_h)
    } else {
        delta == Seq::<Output>::empty() && new_h.unchanged(&old_h)
    }
}

/// Everything but the clock is as before.
pub open spec fn only_clock(old_h: InputHandler, new_h: InputHandler) -> bool {
    &&& new_h.bank_a == old_h.bank_a && new_h.bank_b == old_h.bank_b
    &&& new_h.bd_cx == old_h.bd_cx && new_h.rd_cx == old_h.rd_cx
    &&& new_h.banks_maybe_focus == old_h.banks_maybe_focus
    &&& new_h.deafen == old_h.deafen
    &&& new_h.state == old_h.state
}

/// A clock pulse: the first pulse of each step starts a step; the pulse count wraps
/// after a step's worth.
pub open spec fn clock_spec(old_h: InputHandler, new_h: InputHandler, delta: Seq<Output>) -> bool {
    &&& only_clock(old_h, new_h)
    &&& new_h.clock == (old_h.clock + 1) % pulses_per_step()
    &&& delta == if old_h.clock == 0 { seq![Output::Clock] } else { Seq::<Output>::empty() }
}

/// The clock stopped: the pulse count restarts, the sequencers stop and empty both
/// banks' sequences, and the display is told.
pub open spec fn stop_spec(old_h: InputHandler, new_h: InputHandler, delta: Seq<Output>) -> bool {
    &&& only_clock(old_h, new_h)
    &&& new_h.clock == 0
    &&& delta == seq![
        Output::Stop,
        Output::Audio(Bank::A, BankCmd::ClearPool),
        Output::Audio(Bank::B, BankCmd::ClearPool),
        Output::DisplayStop,
    ]
}

/// A message that moves the browser: reverse or kit of bank B pressed.
pub open spec fn midi_browses(m: Midi) -> bool {
    m matches Midi::NoteOn { key } && (key == KEY_REVERSE_B || key == KEY_KIT_B)
}

/// A raw message that parses to one that moves the browser.
pub open spec fn message_browses(message: Seq<u8>) -> bool {
    parsed(message) matches Some(m) && midi_browses(m)
}

/// What a message does to the controls.
pub open spec fn midi_spec(old_h: InputHandler, new_h: InputHandler, m: Midi, delta: Seq<Output>) -> bool {
    match m {
        Midi::NoteOff { key } => note_off_spec(old_h, new_h, key, delta),
        Midi::NoteOn { key } => note_on_spec(old_h, new_h, key, delta),
        Midi::Controller { controller, value } => controller_spec(old_h, new_h, controller, value, delta),
        Midi::PitchBend { bend } => delta == seq![Output::Bend(bend)] && new_h.unchanged(&old_h),
        Midi::TimingClock => clock_spec(old_h, new_h, delta),
        Midi::Stop => stop_spec(old_h, new_h, delta),
        Midi::Other => delta == Seq::<Output>::empty() && new_h.unchanged(&old_h),
    }
}

/// What the raw message `message` does: nothing while deafened; otherwise an
/// unparsable message is refused and changes nothing, and a parsed one does what
/// `midi_spec` says.
pub open spec fn push_spec(
    old_h: InputHandler,
    new_h: InputHandler,
    message: Seq<u8>,
    r: Result<(), MidiError>,
    delta: Seq<Output>,
) -> bool {
    if old_h.deafen {
        r is Ok && delta == Seq::<Output>::empty() && new_h.unchanged(&old_h)
    } else {
        match parsed(message) {
            None => r == Err::<(), MidiError>(MidiError::Invalid) && delta == Seq::<Output>::empty() && new_h.unchanged(&old_h),
            Some(m) => r is Ok && midi_spec(old_h, new_h, m, delta),
        }
    }
}

impl InputHandler {
    /// A controller moved, as `controller_spec` says.
    pub fn controller(&mut self, c: u8, value: u8, out: &mut Vec<Output>)
        requires
            old(self).inv(),
        ensures
            final(self).inv(),
            final(out)@.len() >= old(out)@.len(),
            final(out)@.subrange(0, old(out)@.len() as int) == old(out)@,
            controller_spec(*old(self), *final(self), c, value, final(out)@.subrange(old(out)@.len() as int, final(out)@.len() as int)),
    {
        let ghost out0 = out@;
        if c == CTRL_GAIN_ONESHOT {
            out.push(Output::OneshotGain(value));
            assert(out@.subrange(out0.len() as int, out@.len() as int) =~= seq![Output::OneshotGain(value)]);
        } else if c == CTRL_GAIN_A {
            self.bank_a.gain(value, out);
        } else if c == CTRL_SPEED_A {
            self.bank_a.speed(value, out);
        } else if c == CTRL_DRIFT_A {
            self.bank_a.drift(value, out);
        } else if c == CTRL_GAIN_B {
            self.bank_b.gain(value, out);
        } else if c == CTRL_SPEED_B {
            self.bank_b.speed(value, out);
        } else if c == CTRL_DRIFT_B {
            self.bank_b.drift(value, out);
        } else {
            assert(out@.subrange(out0.len() as int, out@.len() as int) =~= Seq::<Output>::empty());
        }
    }

    /// A clock pulse, as `clock_spec` says.
    pub fn timing_clock(&mut self, out: &mut Vec<Output>)
        requires
            old(self).inv(),
        ensures
            final(self).inv(),
            final(out)@.len() >= old(out)@.len(),
            final(out)@.subrange(0, old(out)@.len() as int) == old(out)@,
            clock_spec(*old(self), *final(self), final(out)@.subrange(old(out)@.len() as int, final(out)@.len() as int)),
    {
        let ghost out0 = out@;
        let (step, clock) = clock_pulse(self.clock);
        if step {
            out.push(Output::Clock);
            assert(out@.subrange(out0.len() as int, out@.len() as int) =~= seq![Output::Clock]);
        } else {
            assert(out@.subrange(out0.len() as int, out@.len() as int) =~= Seq::<Output>::empty());
        }
        self.clock = clock;
    }

    /// The clock stopped, as `stop_spec` says.
    pub fn stop(&mut self, out: &mut Vec<Output>)
        requires
            old(self).inv(),
        ensures
            final(self).inv(),
            final(out)@.len() >= old(out)@.len(),
            final(out)@.subrange(0, old(out)@.len() as int) == old(out)@,
            stop_spec(*old(self), *final(self), final(out)@.subrange(old(out)@.len() as int, final(out)@.len() as int)),
    {
        let ghost out0 = out@;
        self.clock = 0;
        out.push(Output::Stop);
        out.push(Output::Audio(Bank::A, BankCmd::ClearPool));
        out.push(Output::Audio(Bank::B, BankCmd::ClearPool));
        out.push(Output::DisplayStop);
        assert(out@.subrange(out0.len() as int, out@.len() as int) =~= seq![
            Output::Stop,
            Output::Audio(Bank::A, BankCmd::ClearPool),
            Output::Audio(Bank::B, BankCmd::ClearPool),
            Output::DisplayStop,
        ]);
    }

    /// Whether the browser can move now.
    pub fn can_browse_now(&self) -> (r: bool)
        ensures
            r == self.can_browse(),
    {
        match &self.state {
            GlobalState::LoadBd { .. } => match self.bd_cx {
                Some(c) => c.file_index < c.count,
                None => false,
            },
            GlobalState::LoadRd => match self.rd_cx {
                Some(c) => c.file_index < c.count,
                None => false,
            },
            GlobalState::LoadOnset { .. } => self.rd_cx.is_some(),
            GlobalState::Yield => true,
        }
    }

    /// A parsed message, as `midi_spec` says.
    pub fn dispatch_midi(&mut self, m: Midi, out: &mut Vec<Output>)
        requires
            old(self).inv(),
            midi_browses(m) ==> old(self).can_browse(),
        ensures
            final(self).inv(),
            final(out)@.len() >= old(out)@.len(),
            final(out)@.subrange(0, old(out)@.len() as int) == old(out)@,
            midi_spec(*old(self), *final(self), m, final(out)@.subrange(old(out)@.len() as int, final(out)@.len() as int)),
    {
        let ghost out0 = out@;
        match m {
            Midi::NoteOff { key } => self.note_off(key, out),
            Midi::NoteOn { key } => self.note_on(key, out),
            Midi::Controller { controller, value } => self.controller(controller, value, out),
            Midi::PitchBend { bend } => {
                out.push(Output::Bend(bend));
                assert(out@.subrange(out0.len() as int, out@.len() as int) =~= seq![Output::Bend(bend)]);
            },
            Midi::TimingClock => self.timing_clock(out),
            Midi::Stop => self.stop(out),
            Midi::Other => {
                assert(out@.subrange(out0.len() as int, out@.len() as int) =~= Seq::<Output>::empty());
            },
        }
    }

    /// A raw message from the MIDI input, as `push_spec` says.
    pub fn push_midi(&mut self, message: &[u8], out: &mut Vec<Output>) -> (r: Result<(), MidiError>)
        requires
            old(self).inv(),
            !old(self).deafen && message_browses(message@) ==> old(self).can_browse(),
        ensures
            final(self).inv(),
            final(out)@.len() >= old(out)@.len(),
            final(out)@.subrange(0, old(out)@.len() as int) == old(out)@,
            push_spec(*old(self), *final(self), message@, r, final(out)@.subrange(old(out)@.len() as int, final(out)@.len() as int)),
    {
        let ghost out0 = out@;
        if self.deafen {
            assert(out@.subrange(out0.len() as int, out@.len() as int) =~= Seq::<Output>::empty());
            return Ok(());
        }
        match parse_live(message) {
            Some(m) => {
                self.dispatch_midi(m, out);
                Ok(())
            },
            None => {
                assert(out@.subrange(out0.len() as int, out@.len() as int) =~= Seq::<Output>::empty());
                Err(MidiError::Invalid)
            },
        }
    }

    /// A raw message from the MIDI input, taken only where it does not move a browser
    /// that cannot move (an empty listing): there it is left alone and `None` returned;
    /// elsewhere it does what `push_midi` does.
    pub fn try_push_midi(&mut self, message: &[u8], out: &mut Vec<Output>) -> (r: Option<Result<(), MidiError>>)
        requires
            old(self).inv(),
        ensures
            final(self).inv(),
            final(out)@.len() >= old(out)@.len(),
            final(out)@.subrange(0, old(out)@.len() as int) == old(out)@,
            r is None <==> (!old(self).deafen && message_browses(message@) && !old(self).can_browse()),
            r is None ==> final(self).unchanged(old(self)) && final(out)@ == old(out)@,
            r matches Some(res) ==> push_spec(*old(self), *final(self), message@, res, final(out)@.subrange(old(out)@.len() as int, final(out)@.len() as int)),
    {
        if !self.deafen {
            if let Some(m) = parse_live(message) {
                let browses = match m {
                    Midi::NoteOn { key } => key == KEY_REVERSE_B || key == KEY_KIT_B,
                    _ => false,
                };
                if browses && !self.can_browse_now() {
                    return None;
                }
            }
        }
        Some(self.push_midi(message, out))
    }
}

/// What opening the selected entry asks of the caller, who holds the directories and
/// their listings.
#[derive(Copy, Clone, Debug, PartialEq, Eq, Structural)]
pub enum OpenAction {
    /// list the last bank directory again, for bank `bank`
    RecallBanks { bank: Bank },
    /// list the bank directory at the top, for bank `bank`
    OpenBanks { bank: Bank },
    /// list the last sample directory again
    RecallSamples,
    /// list the sample directory at the top
    OpenSamples,
    /// open entry `file_index` of the bank listing: enter it if a directory, load it into
    /// bank `bank` if a bank file
    OpenBankEntry { bank: Bank, file_index: usize },
    /// open entry `file_index` of the sample listing: enter it if a directory, choose
    /// among its onsets if a sample
    OpenSampleEntry { file_index: usize },
    /// show the sample listing again
    ShowSamples,
}

/// What opening does: with the banks in control, a focused bank browses bank files for
/// it (the last directory again, if there was one) and loses the focus; with none
/// focused, samples are browsed; while browsing, the selected entry is opened; while
/// choosing an onset, the samples are browsed again.
pub open spec fn open_spec(old_h: InputHandler, new_h: InputHandler, a: OpenAction) -> bool {
    &&& new_h.bank_a == old_h.bank_a && new_h.bank_b == old_h.bank_b
    &&& new_h.bd_cx == old_h.bd_cx && new_h.rd_cx == old_h.rd_cx
    &&& new_h.deafen == old_h.deafen && new_h.clock == old_h.clock
    &&& match old_h.state {
        GlobalState::Yield => {
            &&& new_h.state == old_h.state
            &&& new_h.banks_maybe_focus is None
            &&& a == match old_h.banks_maybe_focus {
                Some(bank) => if old_h.bd_cx is Some {
                    OpenAction::RecallBanks { bank }
                } else {
                    OpenAction::OpenBanks { bank }
                },
                None => if old_h.rd_cx is Some {
                    OpenAction::RecallSamples
                } else {
                    OpenAction::OpenSamples
                },
            }
        },
        GlobalState::LoadBd { bank } => {
            &&& new_h.state == old_h.state && new_h.banks_maybe_focus == old_h.banks_maybe_focus
            &&& a == OpenAction::OpenBankEntry { bank, file_index: old_h.bd_cx->Some_0.file_index }
        },
        GlobalState::LoadRd => {
            &&& new_h.state == old_h.state && new_h.banks_maybe_focus == old_h.banks_maybe_focus
            &&& a == OpenAction::OpenSampleEntry { file_index: old_h.rd_cx->Some_0.file_index }
        },
        GlobalState::LoadOnset { .. } => {
            &&& new_h.state is LoadRd && new_h.banks_maybe_focus == old_h.banks_maybe_focus
            &&& a == OpenAction::ShowSamples
        },
    }
}

impl InputHandler {
    /// The browser being used has a position (it was opened before).
    pub open spec fn has_browser(&self) -> bool {
        &&& self.state is LoadBd ==> self.bd_cx is Some
        &&& self.state is LoadRd ==> self.rd_cx is Some
    }

    /// The open key, as `open_spec` says.
    pub fn open(&mut self) -> (a: OpenAction)
        requires
            old(self).inv(),
            old(self).has_browser(),
        ensures
            final(self).inv(),
            open_spec(*old(self), *final(self), a),
    {
        match &self.state {
            GlobalState::Yield => {
                match self.banks_maybe_focus.take() {
                    Some(bank) => if self.bd_cx.is_some() {
                        OpenAction::RecallBanks { bank }
                    } else {
                        OpenAction::OpenBanks { bank }
                    },
                    None => if self.rd_cx.is_some() {
                        OpenAction::RecallSamples
                    } else {
                        OpenAction::OpenSamples
                    },
                }
            },
            GlobalState::LoadBd { bank } => {
                let bank = *bank;
                match self.bd_cx {
                    Some(c) => OpenAction::OpenBankEntry { bank, file_index: c.file_index },
                    None => OpenAction::OpenBankEntry { bank, file_index: 0 },
                }
            },
            GlobalState::LoadRd => match self.rd_cx {
                Some(c) => OpenAction::OpenSampleEntry { file_index: c.file_index },
                None => OpenAction::OpenSampleEntry { file_index: 0 },
            },
            GlobalState::LoadOnset { .. } => {
                self.state = GlobalState::LoadRd;
                OpenAction::ShowSamples
            },
        }
    }

    /// A bank listing of `count` entries is shown for bank `bank`: the last position is
    /// kept when `recall`, else the first entry is selected; bank files are browsed.
    pub fn list_banks(&mut self, bank: Bank, count: usize, recall: bool)
        requires
            old(self).inv(),
            recall ==> old(self).bd_cx is Some,
        ensures
            final(self).inv(),
            final(self).bd_cx == Some(Browser {
                file_index: if recall { old(self).bd_cx->Some_0.file_index } else { 0 },
                count,
            }),
            final(self).state == (GlobalState::LoadBd { bank }),
            final(self).rd_cx == old(self).rd_cx && final(self).banks_maybe_focus == old(self).banks_maybe_focus,
            final(self).bank_a == old(self).bank_a && final(self).bank_b == old(self).bank_b,
            final(self).deafen == old(self).deafen && final(self).clock == old(self).clock,
    {
        let file_index = match self.bd_cx {
            Some(c) => if recall { c.file_index } else { 0 },
            None => 0,
        };
        self.bd_cx = Some(Browser { file_index, count });
        self.state = GlobalState::LoadBd { bank };
    }

    /// A sample listing of `count` entries is shown: the last position is kept when
    /// `recall`, else the first entry is selected; samples are browsed.
    pub fn list_samples(&mut self, count: usize, recall: bool)
        requires
            old(self).inv(),
            recall ==> old(self).rd_cx is Some,
        ensures
            final(self).inv(),
            final(self).rd_cx == Some(Browser {
                file_index: if recall { old(self).rd_cx->Some_0.file_index } else { 0 },
                count,
            }),
            final(self).state == GlobalState::LoadRd,
            final(self).bd_cx == old(self).bd_cx && final(self).banks_maybe_focus == old(self).banks_maybe_focus,
            final(self).bank_a == old(self).bank_a && final(self).bank_b == old(self).bank_b,
            final(self).deafen == old(self).deafen && final(self).clock == old(self).clock,
    {
        let file_index = match self.rd_cx {
            Some(c) => if recall { c.file_index } else { 0 },
            None => 0,
        };
        self.rd_cx = Some(Browser { file_index, count });
        self.state = GlobalState::LoadRd;
    }

    /// The onsets `rd` of the selected sample are chosen among, from the first.
    pub fn choose_onsets(&mut self, rd: Rd)
        requires
            old(self).inv(),
            rd.onsets@.len() > 0,
        ensures
            final(self).inv(),
            final(self).state == (GlobalState::LoadOnset { rd, onset_index: 0 }),
            final(self).bd_cx == old(self).bd_cx && final(self).rd_cx == old(self).rd_cx,
            final(self).banks_maybe_focus == old(self).banks_maybe_focus,
            final(self).bank_a == old(self).bank_a && final(self).bank_b == old(self).bank_b,
            final(self).deafen == old(self).deafen && final(self).clock == old(self).clock,
    {
        self.state = GlobalState::LoadOnset { rd, onset_index: 0 };
    }
}

/// Reverse pressed and released while playing, without shift: the bank plays
/// backwards, then forwards again, and nothing else of its mode changes.
pub proof fn lemma_reverse_round_trip(b: Bank, downs: Seq<u8>, m: Mode)
    requires
        m.state == BankState::Mangle,
    ensures
        ({
            let (m1, o1) = gesture_spec(b, downs, false, m, Gesture::ReverseDown);
            let (m2, o2) = gesture_spec(b, downs, false, m1, Gesture::ReverseUp);
            &&& m2 == (Mode { reverse: false, ..m })
            &&& o1 == seq![Output::Audio(b, BankCmd::AssignReverse(true))]
            &&& o2 == seq![Output::Audio(b, BankCmd::AssignReverse(false))]
        }),
{
}

/// Hold pressed twice while playing, without shift, gives back the mode it started from.
pub proof fn lemma_hold_twice(b: Bank, downs: Seq<u8>, m: Mode)
    requires
        m.state == BankState::Mangle,
    ensures
        gesture_spec(b, downs, false, gesture_spec(b, downs, false, m, Gesture::HoldDown).0, Gesture::HoldDown).0 == m,
{
}

/// Kit pressed and released while playing, without shift: the display shows the kits,
/// then the bank plays again in the mode it started from.
pub proof fn lemma_kit_round_trip(b: Bank, downs: Seq<u8>, m: Mode)
    requires
        m.state == BankState::Mangle,
    ensures
        ({
            let (m1, o1) = gesture_spec(b, downs, false, m, Gesture::KitDown);
            let (m2, o2) = gesture_spec(b, downs, false, m1, Gesture::KitUp);
            &&& m1.state == BankState::LoadKit && m2 == m
            &&& o1 == seq![Output::Display(b, tui::BankCmd::LoadKit(None))]
            &&& o2 == seq![Output::Display(b, tui::BankCmd::Mangle)]
        }),
{
}

/// Shift and reverse pressed while playing, then reverse released: a phrase is cut and
/// then stored in the first held pad's slot, and the bank plays again without hold.
pub proof fn lemma_bake_round_trip(b: Bank, downs: Seq<u8>, m: Mode, shift_after: bool)
    requires
        m.state == BankState::Mangle,
    ensures
        ({
            let (m1, _) = gesture_spec(b, downs, true, m, Gesture::ReverseDown);
            let (m2, o2) = gesture_spec(b, downs, shift_after, m1, Gesture::ReverseUp);
            &&& m1.state == BankState::BakeRecord
            &&& m2 == (Mode { hold: false, state: BankState::Mangle, ..m })
            &&& o2 == seq![
                Output::Audio(b, BankCmd::TakeRecord(first_held(downs))),
                Output::Display(b, tui::BankCmd::Mangle),
            ]
        }),
{
}

/// Building a sequence empties the old one once, on the first pad pressed: once a pad
/// was pressed while building, every further pad press only appends the phrase slot of
/// the last pad held, releasing pads does nothing, and releasing hold ends the build
/// without emptying the sequence again.
pub proof fn lemma_pool_cleared_once(b: Bank, downs: Seq<u8>, shift: bool, m: Mode)
    requires
        m.state == (BankState::BuildPool { cleared: true }),
    ensures
        gesture_spec(b, downs, shift, m, Gesture::PadDown) == (m, seq![
            Output::Audio(b, BankCmd::PushPool(downs.last())),
        ]),
        gesture_spec(b, downs, shift, m, Gesture::PadUp) == (m, Seq::<Output>::empty()),
        gesture_spec(b, downs, shift, m, Gesture::HoldUp) == (Mode { state: BankState::Mangle, ..m }, seq![
            Output::Display(b, tui::BankCmd::Mangle),
        ]),
{
    let (_, o) = gesture_spec(b, downs, shift, m, Gesture::HoldUp);
    assert(o =~= seq![Output::Display(b, tui::BankCmd::Mangle)]);
    let (_, o) = gesture_spec(b, downs, shift, m, Gesture::PadDown);
    assert(o =~= seq![Output::Audio(b, BankCmd::PushPool(downs.last()))]);
}

/// A whole sequence build: shift and hold pressed while playing, a pad pressed and
/// released, another pad pressed, then hold released. The old sequence is emptied once,
/// before the first slot; the two pads' slots are appended in order; and the bank plays
/// again in the mode it started from.
pub proof fn lemma_pool_build(b: Bank, d1: Seq<u8>, d1_up: Seq<u8>, d2: Seq<u8>, d_end: Seq<u8>, shift: bool, m: Mode)
    requires
        m.state == BankState::Mangle,
    ensures
        ({
            let (m0, o0) = gesture_spec(b, d_end, true, m, Gesture::HoldDown);
            let (m1, o1) = gesture_spec(b, d1, shift, m0, Gesture::PadDown);
            let (m2, o2) = gesture_spec(b, d1_up, shift, m1, Gesture::PadUp);
            let (m3, o3) = gesture_spec(b, d2, shift, m2, Gesture::PadDown);
            let (m4, o4) = gesture_spec(b, d_end, shift, m3, Gesture::HoldUp);
            &&& o0 == seq![Output::Display(b, tui::BankCmd::PushPool(None))]
            &&& o1 == seq![
                Output::Audio(b, BankCmd::ClearPool),
                Output::Display(b, tui::BankCmd::ClearPool),
                Output::Audio(b, BankCmd::PushPool(d1.last())),
            ]
            &&& o2 == Seq::<Output>::empty()
            &&& o3 == seq![Output::Audio(b, BankCmd::PushPool(d2.last()))]
            &&& o4 == seq![Output::Display(b, tui::BankCmd::Mangle)]
            &&& m4 == m
        }),
{
    let (m0, o0) = gesture_spec(b, d_end, true, m, Gesture::HoldDown);
    let (m1, o1) = gesture_spec(b, d1, shift, m0, Gesture::PadDown);
    assert(o1 =~= seq![
        Output::Audio(b, BankCmd::ClearPool),
        Output::Display(b, tui::BankCmd::ClearPool),
        Output::Audio(b, BankCmd::PushPool(d1.last())),
    ]);
    let (m3, o3) = gesture_spec(b, d2, shift, m1, Gesture::PadDown);
    assert(o3 =~= seq![Output::Audio(b, BankCmd::PushPool(d2.last()))]);
    let (m4, o4) = gesture_spec(b, d_end, shift, m3, Gesture::HoldUp);
    assert(o4 =~= seq![Output::Display(b, tui::BankCmd::Mangle)]);
}

/// Hold released while building, before any pad was pressed, empties the sequence.
pub proof fn lemma_pool_left_empty(b: Bank, downs: Seq<u8>, shift: bool, m: Mode)
    requires
        m.state == (BankState::BuildPool { cleared: false }),
    ensures
        gesture_spec(b, downs, shift, m, Gesture::HoldUp) == (Mode { state: BankState::Mangle, ..m }, seq![
            Output::Audio(b, BankCmd::ClearPool),
            Output::Display(b, tui::BankCmd::ClearPool),
            Output::Display(b, tui::BankCmd::Mangle),
        ]),
{
    let (_, o) = gesture_spec(b, downs, shift, m, Gesture::HoldUp);
    assert(o =~= seq![
        Output::Audio(b, BankCmd::ClearPool),
        Output::Display(b, tui::BankCmd::ClearPool),
        Output::Display(b, tui::BankCmd::Mangle),
    ]);
}

} // verus!
