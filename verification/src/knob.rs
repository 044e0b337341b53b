//! Soft takeover for controls shared between a base and a shifted parameter: after
//! the shift changes, a control only takes effect again once it has come back to
//! (or crossed) the value last set for the parameter it now drives. Also which
//! control each channel of the ADC's conversion sequence reads.
use vstd::prelude::*;

verus! {

/// Where a control stands relative to the value of the parameter it drives.
#[derive(Copy, Clone, Debug, PartialEq, Eq, Structural)]
pub enum Preshift {
    /// the control drives the parameter
    Idle,
    /// the shift just changed; the next reading tells on which side the control is
    Primed,
    /// the control is below the parameter's value and must come up to it
    FromLess,
    /// the control is above the parameter's value and must come down to it
    FromMore,
}

impl Default for Preshift {
    fn default() -> (p: Self)
        ensures
            p == Preshift::Idle,
    {
        Preshift::Idle
    }
}

/// A potentiometer's takeover state and the last value of its base and shifted parameter.
#[derive(Copy, Clone, Debug)]
pub struct Last {
    pub preshift: Preshift,
    pub samples: [u16; 2],
}

impl Default for Last {
    fn default() -> (l: Self)
        ensures
            l.preshift == Preshift::Idle,
            l.samples@ == seq![0u16, 0u16],
    {
        Last { preshift: Preshift::Idle, samples: [0, 0] }
    }
}

/// The three potentiometers of a bank and whether shift is held.
#[derive(Copy, Clone, Debug)]
pub struct Pots {
    pub shift: bool,
    pub last: [Last; 3],
}

impl Default for Pots {
    fn default() -> (p: Self)
        ensures
            !p.shift,
            forall|i: int| 0 <= i < 3 ==> p.last@[i].preshift == Preshift::Idle && p.last@[i].samples@ == seq![0u16, 0u16],
    {
        Pots { shift: false, last: [Last::default(), Last::default(), Last::default()] }
    }
}

/// What a reading `sample` does to a potentiometer whose state is `l` and whose
/// parameter currently has value `last`: the new state, the new value and whether the
/// value was set.
pub open spec fn pot_reading(p: Preshift, last: u16, sample: u16) -> (Preshift, u16, bool) {
    match p {
        Preshift::Idle => if sample == last {
            (p, last, false)
        } else {
            (p, sample, true)
        },
        Preshift::Primed => if sample < last {
            (Preshift::FromLess, last, false)
        } else if sample > last {
            (Preshift::FromMore, last, false)
        } else {
            (Preshift::Idle, last, false)
        },
        Preshift::FromLess => if sample >= last {
            (Preshift::Idle, sample, true)
        } else {
            (p, last, false)
        },
        Preshift::FromMore => if sample <= last {
            (Preshift::Idle, sample, true)
        } else {
            (p, last, false)
        },
    }
}

impl Pots {
    /// Switches between base and shifted parameters; every potentiometer is primed.
    pub fn shift(&mut self, shift: bool)
        ensures
            final(self).shift == shift,
            forall|i: int|
                0 <= i < 3 ==> #[trigger] final(self).last@[i] == (Last {
                    preshift: Preshift::Primed,
                    ..old(self).last@[i]
                }),
    {
        self.shift = shift;
        let mut i: usize = 0;
        while i < 3
            invariant
                i <= 3,
                self.shift == shift,
                forall|j: int| 0 <= j < i ==> #[trigger] self.last@[j] == (Last { preshift: Preshift::Primed, ..old(self).last@[j] }),
                forall|j: int| i <= j < 3 ==> #[trigger] self.last@[j] == old(self).last@[j],
            decreases 3 - i,
        {
            let l = self.last[i];
            self.last[i] = Last { preshift: Preshift::Primed, samples: l.samples };
            i = i + 1;
        }
    }

    /// The value last set for potentiometer `index` on the current side of shift.
    pub fn last(&self, index: u8) -> (r: u16)
        requires
            index < 3,
        ensures
            r == self.last@[index as int].samples@[if self.shift { 1int } else { 0int }],
    {
        self.last[index as usize].samples[if self.shift { 1 } else { 0 }]
    }

    /// Takes the reading `sample` of potentiometer `index`; returns whether it set the
    /// value of the parameter it drives, as `pot_reading` says.
    pub fn maybe_set(&mut self, index: usize, sample: u16) -> (set: bool)
        requires
            index < 3,
        ensures
            final(self).shift == old(self).shift,
            ({
                let s = if old(self).shift { 1int } else { 0int };
                let l = old(self).last@[index as int];
                let (p, v, b) = pot_reading(l.preshift, l.samples@[s], sample);
                &&& set == b
                &&& final(self).last@[index as int].preshift == p
                &&& final(self).last@[index as int].samples@ == l.samples@.update(s, v)
            }),
            forall|j: int| 0 <= j < 3 && j != index ==> final(self).last@[j] == old(self).last@[j],
    {
        let s: usize = if self.shift { 1 } else { 0 };
        let mut l = self.last[index];
        let last = l.samples[s];
        let set = match l.preshift {
            Preshift::Idle => {
                if sample == last {
                    false
                } else {
                    l.samples[s] = sample;
                    true
                }
            },
            Preshift::Primed => {
                if sample < last {
                    l.preshift = Preshift::FromLess;
                } else if sample > last {
                    l.preshift = Preshift::FromMore;
                } else {
                    l.preshift = Preshift::Idle;
                }
                false
            },
            Preshift::FromLess => {
                if sample >= last {
                    l.preshift = Preshift::Idle;
                    l.samples[s] = sample;
                    true
                } else {
                    false
                }
            },
            Preshift::FromMore => {
                if sample <= last {
                    l.preshift = Preshift::Idle;
                    l.samples[s] = sample;
                    true
                } else {
                    false
                }
            },
        };
        self.last[index] = l;
        set
    }
}

/// A MIDI control's takeover state and the last value of its base and shifted
/// parameter, unknown until first heard.
#[derive(Copy, Clone, Debug)]
pub struct Knob {
    pub values: [Option<u8>; 2],
    pub preshift: Preshift,
}

/// What a reading `value` does to a knob in state `p` whose parameter has value
/// `mine`: the new state, the new value and whether it was set. Unlike a
/// potentiometer, a knob tolerates a jitter of one either way.
pub open spec fn knob_reading(p: Preshift, mine: u8, value: u8) -> (Preshift, u8, bool) {
    let below = if mine >= 1 { mine - 1 } else { 0 };
    let above = if mine <= 254 { mine + 1 } else { 255 };
    match p {
        Preshift::Idle => if value == mine {
            (p, mine, false)
        } else {
            (p, value, true)
        },
        Preshift::Primed => if value < below {
            (Preshift::FromLess, mine, false)
        } else if value > above {
            (Preshift::FromMore, mine, false)
        } else {
            (Preshift::Idle, mine, false)
        },
        Preshift::FromLess => if value == mine {
            (Preshift::Idle, mine, false)
        } else if value >= below {
            (Preshift::Idle, value, true)
        } else {
            (p, mine, false)
        },
        Preshift::FromMore => if value == mine {
            (Preshift::Idle, mine, false)
        } else if value <= above {
            (Preshift::Idle, value, true)
        } else {
            (p, mine, false)
        },
    }
}

/// The side of a knob a reading is on: 1 with shift held, 0 without.
pub open spec fn side(shift: bool) -> int {
    if shift { 1 } else { 0 }
}

/// Whether a reading `value` on the side of shift `shift` sets the parameter: the
/// first reading on a side always does, later ones as `knob_reading` says.
pub open spec fn knob_sets(k: Knob, value: u8, shift: bool) -> bool {
    match k.values@[side(shift)] {
        None => true,
        Some(mine) => knob_reading(k.preshift, mine, value).2,
    }
}

/// The knob `next` after a reading `value` on the side of shift `shift` of knob `k`:
/// the side's value is the reading's if it is the first, else as `knob_reading` says;
/// the takeover state moves on as `knob_reading` says once the side has a value.
pub open spec fn knob_after(k: Knob, next: Knob, value: u8, shift: bool) -> bool {
    let s = side(shift);
    match k.values@[s] {
        None => next.values@ == k.values@.update(s, Some(value)) && next.preshift == k.preshift,
        Some(mine) => {
            let (p, v, _) = knob_reading(k.preshift, mine, value);
            next.preshift == p && next.values@ == k.values@.update(s, Some(v))
        },
    }
}

impl Knob {
    /// Nothing heard yet; drives its parameter.
    pub fn new() -> (k: Self)
        ensures
            k.values@ == seq![None::<u8>, None::<u8>],
            k.preshift == Preshift::Idle,
    {
        Knob { values: [None, None], preshift: Preshift::Idle }
    }

    /// Takes the reading `value` on the side of shift `shift`; returns whether it set
    /// the parameter's value. The first reading on a side always sets it; later ones
    /// go as `knob_reading` says.
    pub fn maybe_set(&mut self, value: u8, shift: bool) -> (set: bool)
        ensures
            set == knob_sets(*old(self), value, shift),
            knob_after(*old(self), *final(self), value, shift),
    {
        let s: usize = if shift { 1 } else { 0 };
        let set = match self.values[s] {
            Some(mine) => {
                let below = mine.saturating_sub(1);
                let above = mine.saturating_add(1);
                match self.preshift {
                    Preshift::Idle => {
                        if value == mine {
                            false
                        } else {
                            self.values[s] = Some(value);
                            true
                        }
                    },
                    Preshift::Primed => {
                        if value < below {
                            self.preshift = Preshift::FromLess;
                        } else if value > above {
                            self.preshift = Preshift::FromMore;
                        } else {
                            self.preshift = Preshift::Idle;
                        }
                        false
                    },
                    Preshift::FromLess => {
                        if value == mine {
                            self.preshift = Preshift::Idle;
                            false
                        } else if value >= below {
                            self.preshift = Preshift::Idle;
                            self.values[s] = Some(value);
                            true
                        } else {
                            false
                        }
                    },
                    Preshift::FromMore => {
                        if value == mine {
                            self.preshift = Preshift::Idle;
                            false
                        } else if value <= above {
                            self.preshift = Preshift::Idle;
                            self.values[s] = Some(value);
                            true
                        } else {
                            false
                        }
                    },
                }
            },
            None => {
                self.values[s] = Some(value);
                true
            },
        };
        assert(self.values@ =~= old(self).values@.update(s as int, self.values@[s as int]));
        set
    }
}

/// Right after the shift changes, no reading sets a potentiometer's value.
pub proof fn lemma_primed_pot_holds(last: u16, sample: u16)
    ensures
        !pot_reading(Preshift::Primed, last, sample).2,
        pot_reading(Preshift::Primed, last, sample).1 == last,
{
}

/// A potentiometer that sets a value sets it to the reading, and drives its parameter
/// from then on.
pub proof fn lemma_pot_set_is_reading(p: Preshift, last: u16, sample: u16)
    ensures
        pot_reading(p, last, sample).2 ==> pot_reading(p, last, sample).1 == sample && pot_reading(
            p,
            last,
            sample,
        ).0 == Preshift::Idle,
        !pot_reading(p, last, sample).2 ==> pot_reading(p, last, sample).1 == last,
{
}

/// A potentiometer below its parameter's value does not set it until the reading comes
/// back up to the value; likewise from above.
pub proof fn lemma_pot_catches_up(last: u16, sample: u16)
    ensures
        pot_reading(Preshift::FromLess, last, sample).2 <==> sample >= last,
        pot_reading(Preshift::FromMore, last, sample).2 <==> sample <= last,
{
}

/// Right after the shift changes, no reading sets a knob's value.
pub proof fn lemma_primed_knob_holds(mine: u8, value: u8)
    ensures
        !knob_reading(Preshift::Primed, mine, value).2,
        knob_reading(Preshift::Primed, mine, value).1 == mine,
{
}

/// A knob that sets a value sets it to the reading, and drives its parameter from then on.
pub proof fn lemma_knob_set_is_reading(p: Preshift, mine: u8, value: u8)
    ensures
        knob_reading(p, mine, value).2 ==> knob_reading(p, mine, value).1 == value && knob_reading(
            p,
            mine,
            value,
        ).0 == Preshift::Idle,
        !knob_reading(p, mine, value).2 ==> knob_reading(p, mine, value).1 == mine,
{
}

/// Channels the ADC converts in one sequence.
pub const CHANNEL_COUNT: u8 = 11;

/// What the channel at a place of the ADC's conversion sequence reads: the tempo
/// control, potentiometer `i` of a bank, or axis `i` of a bank's thumbstick.
#[derive(Copy, Clone, Debug, PartialEq, Eq, Structural)]
pub enum Channel {
    Tempo,
    Pot(crate::control::Bank, u8),
    Thumb(crate::control::Bank, u8),
}

/// The channel at place `index` of the conversion sequence: tempo first, then bank A's
/// three potentiometers and two thumbstick axes, then bank B's.
pub open spec fn channel_spec(index: u8) -> Option<Channel> {
    if index == 0 {
        Some(Channel::Tempo)
    } else if 1 <= index <= 3 {
        Some(Channel::Pot(crate::control::Bank::A, (index - 1) as u8))
    } else if 4 <= index <= 5 {
        Some(Channel::Thumb(crate::control::Bank::A, (index - 4) as u8))
    } else if 6 <= index <= 8 {
        Some(Channel::Pot(crate::control::Bank::B, (index - 6) as u8))
    } else if 9 <= index <= 10 {
        Some(Channel::Thumb(crate::control::Bank::B, (index - 9) as u8))
    } else {
        None
    }
}

/// The channel at place `index` of the conversion sequence, as `channel_spec` says.
pub fn channel_of(index: u8) -> (c: Option<Channel>)
    ensures
        c == channel_spec(index),
        c is Some <==> index < CHANNEL_COUNT,
{
    if index == 0 {
        Some(Channel::Tempo)
    } else if index <= 3 {
        Some(Channel::Pot(crate::control::Bank::A, index - 1))
    } else if index <= 5 {
        Some(Channel::Thumb(crate::control::Bank::A, index - 4))
    } else if index <= 8 {
        Some(Channel::Pot(crate::control::Bank::B, index - 6))
    } else if index <= 10 {
        Some(Channel::Thumb(crate::control::Bank::B, index - 9))
    } else {
        None
    }
}

/// The control a bank's potentiometer `i` is: gain, speed, then drift; each sets the
/// parameter of its control by shift, as `crate::control::param_of` says.
pub fn pot_control(i: u8) -> (c: crate::control::Control)
    requires
        i < 3,
    ensures
        i == 0 ==> c == crate::control::Control::Gain,
        i == 1 ==> c == crate::control::Control::Speed,
        i == 2 ==> c == crate::control::Control::Drift,
{
    if i == 0 {
        crate::control::Control::Gain
    } else if i == 1 {
        crate::control::Control::Speed
    } else {
        crate::control::Control::Drift
    }
}

} // verus!
