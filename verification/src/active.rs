//! Playing state: the event each player is on, how it moves from one event to the
//! next, and the recorder and sequencer that feed it events.
use vstd::prelude::*;

use heapless::HistoryBuffer;

use crate::history::{
    clear_phrases, history_write, phrases_oldest_first, write_phrase, new_phrase_history, new_step_history, phrase_history, step_history, step_history_len,
    step_history_slices, write_step,
};
use crate::pads::{kit_choice, lemma_kit_choice_occupied, Bank};
use crate::passive::{self, phrase_slot, Step};
use crate::{PAD_COUNT, PHRASE_COUNT, STEP_COUNT};

verus! {

/// What a drift is drawn for.
#[derive(Copy, Clone, Debug, PartialEq, Eq, Structural)]
pub enum DriftKind {
    /// choosing a kit among the kits of a bank
    Kit,
    /// choosing a step within a phrase
    Step,
    /// choosing a phrase within a sequence
    Phrase,
}

/// A source of random drifts: how many places to move past the place that would be
/// chosen without drift. Every value it gives is accepted.
pub trait Drift {
    fn drift(&mut self, kind: DriftKind, count: usize) -> usize;
}

/// The event a player is on. `index` is the pad whose onset is playing; `tick` counts
/// clock ticks since the onset, forwards or backwards.
#[derive(Copy, Clone, Debug, PartialEq, Eq, Structural)]
pub enum Event {
    Sync,
    Hold { index: u8, tick: i16 },
    Loop { index: u8, tick: i16, len: u16 },
}

/// What the sample reader must do when a player changes event.
#[derive(Copy, Clone, Debug, PartialEq, Eq, Structural)]
pub enum Transition {
    /// nothing
    Keep,
    /// fade out the playing onset and close its file
    Stop,
    /// a kit was chosen but it has no onset on the pad: only prime the crossfade, from
    /// the playing onset if `replace`
    Fade { replace: bool },
    /// prime the crossfade, close the playing onset's file if `replace`, then open the
    /// onset on pad `pad` of kit `kit` and seek to its start
    Open { kit: usize, pad: u8, replace: bool },
    /// keep playing the same onset under the new event, on a duplicate file handle
    Recast,
}

/// The pad an input event names, if any.
pub open spec fn input_pad(input: passive::Event) -> Option<u8> {
    match input {
        passive::Event::Sync => None,
        passive::Event::Hold { index } => Some(index),
        passive::Event::Loop { index, .. } => Some(index),
    }
}

/// The kit chosen for pad `pad`: what becomes of `cur` when it asks for a new onset,
/// and what the reader must do; `next` is the event it moves to when the onset exists.
pub open spec fn choose_onset(
    bank: Bank,
    kit_index: u8,
    drift: int,
    pad: u8,
    replace: bool,
    cur: Event,
    next: Event,
) -> (Event, Transition) {
    match kit_choice(bank.kits@, kit_index as int, drift) {
        None => (cur, Transition::Keep),
        Some(k) => if bank.kits@[k]->Some_0.onsets@[pad as int] is Some {
            (next, Transition::Open { kit: k as usize, pad, replace })
        } else {
            (cur, Transition::Fade { replace })
        },
    }
}

/// How the event `cur` answers the input event `input`, with kits chosen from base
/// slot `kit_index` drifted by `drift`.
pub open spec fn trans_spec(
    cur: Event,
    input: passive::Event,
    bank: Bank,
    kit_index: u8,
    drift: int,
) -> (Event, Transition) {
    match input {
        passive::Event::Sync => match cur {
            Event::Sync => (cur, Transition::Keep),
            _ => (Event::Sync, Transition::Stop),
        },
        passive::Event::Hold { index } => match cur {
            Event::Sync => choose_onset(
                bank,
                kit_index,
                drift,
                index,
                false,
                cur,
                Event::Hold { index, tick: 0 },
            ),
            Event::Hold { .. } => choose_onset(
                bank,
                kit_index,
                drift,
                index,
                true,
                cur,
                Event::Hold { index, tick: 0 },
            ),
            Event::Loop { index: i, .. } => (Event::Hold { index: i, tick: 0 }, Transition::Recast),
        },
        passive::Event::Loop { index, len } => match cur {
            Event::Sync => choose_onset(
                bank,
                kit_index,
                drift,
                index,
                false,
                cur,
                Event::Loop { index, tick: 0, len },
            ),
            Event::Hold { index: i, tick } | Event::Loop { index: i, tick, .. } => if i == index {
                (Event::Loop { index: i, tick, len }, Transition::Recast)
            } else {
                choose_onset(bank, kit_index, drift, index, true, cur, Event::Loop { index, tick, len })
            },
        },
    }
}

/// Whether answering `input` from `cur` chooses a kit, so draws a kit drift.
pub open spec fn draws_kit(cur: Event, input: passive::Event, bank: Bank) -> bool {
    let chooses = match input {
        passive::Event::Sync => false,
        passive::Event::Hold { .. } => !(cur is Loop),
        passive::Event::Loop { index, .. } => match cur {
            Event::Sync => true,
            Event::Hold { index: i, .. } => i != index,
            Event::Loop { index: i, .. } => i != index,
        },
    };
    chooses && exists|j: int| 0 <= j < PAD_COUNT && bank.kits@[j] is Some
}

/// Input events name pads that exist.
pub open spec fn input_ok(input: passive::Event) -> bool {
    input_pad(input) matches Some(p) ==> p < PAD_COUNT
}

fn any_kit(bank: &Bank) -> (r: bool)
    ensures
        r == exists|j: int| 0 <= j < PAD_COUNT && bank.kits@[j] is Some,
{
    let mut i: usize = 0;
    while i < PAD_COUNT
        invariant
            i <= PAD_COUNT,
            forall|j: int| 0 <= j < i ==> bank.kits@[j] is None,
        decreases PAD_COUNT - i,
    {
        if bank.kits[i].is_some() {
            return true;
        }
        i = i + 1;
    }
    false
}

impl Event {
    fn choose_onset(
        &mut self,
        bank: &Bank,
        kit_index: u8,
        drift: usize,
        pad: u8,
        replace: bool,
        next: Event,
    ) -> (t: Transition)
        requires
            pad < PAD_COUNT,
        ensures
            (*final(self), t) == choose_onset(
                *bank,
                kit_index,
                drift as int,
                pad,
                replace,
                *old(self),
                next,
            ),
    {
        match bank.generate_kit_index(kit_index, drift) {
            None => Transition::Keep,
            Some(k) => {
                proof {
                    lemma_kit_choice_occupied(bank.kits@, kit_index as int, drift as int);
                }
                match &bank.kits[k] {
                    Some(kit) => {
                        if kit.onsets[pad as usize].is_some() {
                            *self = next;
                            Transition::Open { kit: k, pad, replace }
                        } else {
                            Transition::Fade { replace }
                        }
                    },
                    None => Transition::Keep,
                }
            },
        }
    }

    /// Moves to the event that answers `input`, with the kit drift `drift`, and says
    /// what the reader must do.
    pub fn trans_with(&mut self, input: &passive::Event, bank: &Bank, kit_index: u8, drift: usize) -> (t:
        Transition)
        requires
            input_ok(*input),
        ensures
            (*final(self), t) == trans_spec(*old(self), *input, *bank, kit_index, drift as int),
    {
        match *input {
            passive::Event::Sync => match *self {
                Event::Sync => Transition::Keep,
                _ => {
                    *self = Event::Sync;
                    Transition::Stop
                },
            },
            passive::Event::Hold { index } => match *self {
                Event::Sync => self.choose_onset(
                    bank,
                    kit_index,
                    drift,
                    index,
                    false,
                    Event::Hold { index, tick: 0 },
                ),
                Event::Hold { .. } => self.choose_onset(
                    bank,
                    kit_index,
                    drift,
                    index,
                    true,
                    Event::Hold { index, tick: 0 },
                ),
                Event::Loop { index: i, .. } => {
                    *self = Event::Hold { index: i, tick: 0 };
                    Transition::Recast
                },
            },
            passive::Event::Loop { index, len } => match *self {
                Event::Sync => self.choose_onset(
                    bank,
                    kit_index,
                    drift,
                    index,
                    false,
                    Event::Loop { index, tick: 0, len },
                ),
                Event::Hold { index: i, tick } | Event::Loop { index: i, tick, .. } => {
                    if i == index {
                        *self = Event::Loop { index: i, tick, len };
                        Transition::Recast
                    } else {
                        self.choose_onset(
                            bank,
                            kit_index,
                            drift,
                            index,
                            true,
                            Event::Loop { index, tick, len },
                        )
                    }
                },
            },
        }
    }

    /// Moves to the event that answers `input`, drawing a kit drift from `rand` when a
    /// kit must be chosen, and says what the reader must do.
    pub fn trans<D: Drift>(&mut self, input: &passive::Event, bank: &Bank, kit_index: u8, rand: &mut D) -> (t:
        Transition)
        requires
            input_ok(*input),
        ensures
            exists|d: usize| (*final(self), t) == trans_spec(*old(self), *input, *bank, kit_index, d as int),
            !draws_kit(*old(self), *input, *bank) ==> (*final(self), t) == trans_spec(
                *old(self),
                *input,
                *bank,
                kit_index,
                0,
            ),
            !draws_kit(*old(self), *input, *bank) ==> *final(rand) == *old(rand),
    {
        let drift = self.kit_drift_for(input, bank, rand);
        self.trans_with(input, bank, kit_index, drift)
    }
}

/// A player: the event it is on and whether it plays backwards.
#[derive(Copy, Clone, Debug, PartialEq, Eq, Structural)]
pub struct Active {
    pub event: Event,
    pub reverse: bool,
}

impl Default for Active {
    /// In time with the clock, forwards.
    fn default() -> (a: Self)
        ensures
            a.event == Event::Sync,
            !a.reverse,
    {
        Active { event: Event::Sync, reverse: false }
    }
}

/// The tick of `e` moved by one step of `ticks_per_step` ticks, backwards when `down`.
pub open spec fn tick_moved(e: Event, down: bool, ticks_per_step: u16) -> Event {
    let d = (ticks_per_step as i16) as int;
    match e {
        Event::Sync => e,
        Event::Hold { index, tick } => Event::Hold {
            index,
            tick: (if down { tick - d } else { tick + d }) as i16,
        },
        Event::Loop { index, tick, len } => Event::Loop {
            index,
            tick: (if down { tick - d } else { tick + d }) as i16,
            len,
        },
    }
}

/// Moving the tick of `e` stays within the range of a tick.
pub open spec fn tick_fits(e: Event, down: bool, ticks_per_step: u16) -> bool {
    let d = (ticks_per_step as i16) as int;
    match e {
        Event::Sync => true,
        Event::Hold { tick, .. } | Event::Loop { tick, .. } => {
            let t = if down { tick - d } else { tick + d };
            i16::MIN <= t <= i16::MAX
        },
    }
}

/// The tick of `e` can move one step either way.
pub open spec fn tick_room(e: Event, ticks_per_step: u16) -> bool {
    tick_fits(e, true, ticks_per_step) && tick_fits(e, false, ticks_per_step)
}

impl Event {
    /// Whether the tick can move one step either way, as `tick_room` says.
    pub fn has_tick_room(&self, ticks_per_step: u16) -> (r: bool)
        ensures
            r == tick_room(*self, ticks_per_step),
    {
        let d = ticks_per_step as i16 as i32;
        match *self {
            Event::Sync => true,
            Event::Hold { tick, .. } | Event::Loop { tick, .. } => {
                let t = tick as i32;
                -32768 <= t - d && t - d <= 32767 && -32768 <= t + d && t + d <= 32767
            },
        }
    }
}

/// A player after one step: its tick moves backwards when exactly one of its own
/// direction and the bank's `xor_reverse` is reverse, forwards otherwise.
pub open spec fn active_ticked(a: Active, xor_reverse: bool, ticks_per_step: u16) -> Active {
    Active { event: tick_moved(a.event, a.reverse != xor_reverse, ticks_per_step), ..a }
}

impl Active {
    /// The event, unless it is `Sync`.
    pub fn non_sync(&self) -> (r: Option<Event>)
        ensures
            r == (if self.event is Sync { None } else { Some(self.event) }),
    {
        match self.event {
            Event::Sync => None,
            e => Some(e),
        }
    }

    /// Moves the tick by one step, backwards when `self.reverse ^ xor_reverse`.
    pub fn tick(&mut self, xor_reverse: bool, ticks_per_step: u16)
        requires
            tick_fits(old(self).event, old(self).reverse != xor_reverse, ticks_per_step),
        ensures
            final(self).reverse == old(self).reverse,
            final(self).event == tick_moved(old(self).event, old(self).reverse != xor_reverse, ticks_per_step),
            *final(self) == active_ticked(*old(self), xor_reverse, ticks_per_step),
    {
        let down = self.reverse ^ xor_reverse;
        let d = ticks_per_step as i16;
        match self.event {
            Event::Sync => {},
            Event::Hold { index, tick } => {
                let t = if down { tick - d } else { tick + d };
                self.event = Event::Hold { index, tick: t };
            },
            Event::Loop { index, tick, len } => {
                let t = if down { tick - d } else { tick + d };
                self.event = Event::Loop { index, tick: t, len };
            },
        }
    }
}

/// Pad input: the step waiting for the next clock tick, and the player it drives.
#[derive(Copy, Clone, Debug, PartialEq, Eq, Structural)]
pub struct Input {
    pub buffer: Step,
    pub active: Active,
}

impl Default for Input {
    fn default() -> (i: Self)
        ensures
            i.buffer.event is None,
            !i.buffer.reverse,
            i.active == Active::default_spec(),
    {
        Input { buffer: Step::default(), active: Active::default() }
    }
}

impl Active {
    pub open spec fn default_spec() -> Active {
        Active { event: Event::Sync, reverse: false }
    }
}

/// One clock tick of pad input: the waiting direction takes effect; a waiting event
/// is answered (and given back), otherwise the player's tick moves forwards or backwards.
pub open spec fn input_tick_spec(i: Input, ticks_per_step: u16, bank: Bank, kit_index: u8, drift: int) -> (
    Input,
    Option<passive::Event>,
    Transition,
) {
    let reverse = i.buffer.reverse;
    match i.buffer.event {
        Some(e) => {
            let (ev, t) = trans_spec(i.active.event, e, bank, kit_index, drift);
            (
                Input { buffer: Step { event: None, reverse: i.buffer.reverse }, active: Active { event: ev, reverse } },
                Some(e),
                t,
            )
        },
        None => (
            Input {
                buffer: i.buffer,
                active: Active { event: tick_moved(i.active.event, reverse, ticks_per_step), reverse },
            },
            None,
            Transition::Keep,
        ),
    }
}

impl Input {
    /// The input can take a clock tick: a waiting event names an existing pad, and
    /// otherwise the tick does not leave its range.
    pub open spec fn can_tick(&self, ticks_per_step: u16) -> bool {
        match self.buffer.event {
            Some(e) => input_ok(e),
            None => tick_fits(self.active.event, self.buffer.reverse, ticks_per_step),
        }
    }

    /// One clock tick with the kit drift `drift`, as `input_tick_spec` says.
    pub fn tick_with(&mut self, ticks_per_step: u16, bank: &Bank, kit_index: u8, drift: usize) -> (r: (
        Option<passive::Event>,
        Transition,
    ))
        requires
            old(self).can_tick(ticks_per_step),
        ensures
            (*final(self), r.0, r.1) == input_tick_spec(*old(self), ticks_per_step, *bank, kit_index, drift as int),
    {
        self.active.reverse = self.buffer.reverse;
        match self.buffer.event {
            Some(event) => {
                self.buffer.event = None;
                let t = self.active.event.trans_with(&event, bank, kit_index, drift);
                (Some(event), t)
            },
            None => {
                self.active.tick(false, ticks_per_step);
                (None, Transition::Keep)
            },
        }
    }

    /// One clock tick, drawing a kit drift from `rand` when a kit must be chosen.
    pub fn tick<D: Drift>(&mut self, ticks_per_step: u16, bank: &Bank, kit_index: u8, rand: &mut D) -> (r: (
        Option<passive::Event>,
        Transition,
    ))
        requires
            old(self).can_tick(ticks_per_step),
        ensures
            exists|d: usize|
                (*final(self), r.0, r.1) == input_tick_spec(*old(self), ticks_per_step, *bank, kit_index, d as int),
            (match old(self).buffer.event {
                Some(e) => !draws_kit(old(self).active.event, e, *bank),
                None => true,
            }) ==> *final(rand) == *old(rand),
    {
        let drift = match self.buffer.event {
            Some(event) => self.active.event.kit_drift_for(&event, bank, rand),
            None => 0,
        };
        self.tick_with(ticks_per_step, bank, kit_index, drift)
    }
}

impl Event {
    /// The kit drift that answering `input` draws: one drawn from `rand` when a kit
    /// must be chosen, otherwise none, with `rand` left as it was.
    fn kit_drift_for<D: Drift>(&self, input: &passive::Event, bank: &Bank, rand: &mut D) -> (d: usize)
        ensures
            !draws_kit(*self, *input, *bank) ==> d == 0 && *final(rand) == *old(rand),
    {
        let chooses = match *input {
            passive::Event::Sync => false,
            passive::Event::Hold { .. } => !matches!(*self, Event::Loop { .. }),
            passive::Event::Loop { index, .. } => match *self {
                Event::Sync => true,
                Event::Hold { index: i, .. } => i != index,
                Event::Loop { index: i, .. } => i != index,
            },
        };
        if chooses && any_kit(bank) {
            rand.drift(DriftKind::Kit, PAD_COUNT)
        } else {
            0
        }
    }
}

/// A player walking through a phrase; `step_index` counts steps before drift.
#[derive(Copy, Clone, Debug, PartialEq, Eq, Structural)]
pub struct Phrase {
    pub step_index: u16,
    pub active: Active,
}

/// A phrase whose steps can all be played: it has a length it can hold, and every
/// event in it names an existing pad.
pub open spec fn phrase_playable(p: passive::Phrase) -> bool {
    &&& p.wf()
    &&& forall|i: int| 0 <= i < STEP_COUNT ==> ((#[trigger] p.steps@[i]).event matches Some(e) ==> input_ok(e))
}

/// The recorder as its operations see it: recorded steps oldest first, the phrase cut
/// from them if any, and the player of that phrase if any.
pub struct RecordView {
    pub queue: Seq<Step>,
    pub source_phrase: Option<passive::Phrase>,
    pub active_phrase: Option<Phrase>,
}

/// The steps of a phrase cut from the recorded `queue`: the recorded steps in order
/// in the last places, which are the ones a phrase of their number plays; the places
/// before them empty.
pub open spec fn saved_steps(queue: Seq<Step>) -> Seq<Step> {
    Seq::new(
        STEP_COUNT as nat,
        |i: int|
            if i >= STEP_COUNT - queue.len() {
                queue[i - (STEP_COUNT - queue.len())]
            } else {
                Step { event: None, reverse: false }
            },
    )
}

/// A new player of `source` starting on its first step (drifted by `step_drift`).
pub open spec fn start_phrase(
    source: passive::Phrase,
    bank: Bank,
    kit_index: u8,
    step_drift: int,
    kit_drift: int,
) -> (Phrase, Option<passive::Event>, Transition) {
    let step = source.steps@[phrase_slot(source.len as int, 0, step_drift)];
    match step.event {
        Some(e) => {
            let (ev, t) = trans_spec(Event::Sync, e, bank, kit_index, kit_drift);
            (Phrase { step_index: 0, active: Active { event: ev, reverse: step.reverse } }, Some(e), t)
        },
        None => (
            Phrase { step_index: 0, active: Active { event: Event::Sync, reverse: step.reverse } },
            None,
            Transition::Keep,
        ),
    }
}

/// A player of `source` moved to its step `step_index` (drifted by `step_drift`): the
/// step's direction takes effect; its event, if any, is answered, otherwise the tick moves.
pub open spec fn play_step(
    player: Phrase,
    step_index: u16,
    source: passive::Phrase,
    xor_reverse: bool,
    ticks_per_step: u16,
    bank: Bank,
    kit_index: u8,
    step_drift: int,
    kit_drift: int,
) -> (Phrase, Option<passive::Event>, Transition) {
    let step = source.steps@[phrase_slot(source.len as int, step_index as int, step_drift)];
    match step.event {
        Some(e) => {
            let (ev, t) = trans_spec(player.active.event, e, bank, kit_index, kit_drift);
            (Phrase { step_index, active: Active { event: ev, reverse: step.reverse } }, Some(e), t)
        },
        None => (
            Phrase {
                step_index,
                active: Active {
                    event: tick_moved(player.active.event, step.reverse != xor_reverse, ticks_per_step),
                    reverse: step.reverse,
                },
            },
            None,
            Transition::Keep,
        ),
    }
}

/// One clock tick of the recorder: with a cut phrase, its player moves to the next
/// step (wrapping), or starts on the first step when there is no player.
pub open spec fn record_tick_spec(
    r: RecordView,
    xor_reverse: bool,
    ticks_per_step: u16,
    bank: Bank,
    kit_index: u8,
    step_drift: int,
    kit_drift: int,
) -> (RecordView, Option<passive::Event>, Transition) {
    match r.source_phrase {
        None => (r, None, Transition::Keep),
        Some(source) => match r.active_phrase {
            Some(player) => {
                let step_index = ((player.step_index + 1) % (source.len as int)) as u16;
                let (p, e, t) = play_step(
                    player,
                    step_index,
                    source,
                    xor_reverse,
                    ticks_per_step,
                    bank,
                    kit_index,
                    step_drift,
                    kit_drift,
                );
                (RecordView { active_phrase: Some(p), ..r }, e, t)
            },
            None => {
                let (p, e, t) = start_phrase(source, bank, kit_index, step_drift, kit_drift);
                (RecordView { active_phrase: Some(p), ..r }, e, t)
            },
        },
    }
}

/// A player of `source` can move to step `step_index`: the tick stays in range when
/// the step has no event.
pub open spec fn step_fits(
    player: Phrase,
    step_index: u16,
    source: passive::Phrase,
    xor_reverse: bool,
    ticks_per_step: u16,
    step_drift: int,
) -> bool {
    let step = source.steps@[phrase_slot(source.len as int, step_index as int, step_drift)];
    step.event is None ==> tick_fits(player.active.event, step.reverse != xor_reverse, ticks_per_step)
}

/// Records steps; a phrase cut from them plays in a loop.
pub struct Record {
    pub queue: HistoryBuffer<Step, STEP_COUNT>,
    pub source_phrase: Option<passive::Phrase>,
    pub active_phrase: Option<Phrase>,
}

impl Record {
    pub open spec fn view(&self) -> RecordView {
        RecordView {
            queue: step_history(self.queue),
            source_phrase: self.source_phrase,
            active_phrase: self.active_phrase,
        }
    }

    /// The recorded steps never exceed the depth of the history, and a phrase player
    /// is within its phrase.
    pub open spec fn inv(&self) -> bool {
        &&& self.view().queue.len() <= STEP_COUNT
        &&& self.active_phrase matches Some(p) ==> (self.source_phrase matches Some(s) && p.step_index
            < s.len)
    }

    /// The recorder can take a clock tick: its phrase, if any, is playable, and the
    /// player's tick stays in range whatever step it moves to.
    pub open spec fn can_tick(&self, xor_reverse: bool, ticks_per_step: u16) -> bool {
        self.source_phrase matches Some(s) ==> {
            &&& phrase_playable(s)
            &&& self.active_phrase matches Some(p) ==> tick_room(p.active.event, ticks_per_step)
        }
    }

    /// Nothing recorded, no phrase, no player.
    pub fn new() -> (r: Self)
        ensures
            r.inv(),
            r.view() == (RecordView { queue: Seq::empty(), source_phrase: None, active_phrase: None }),
    {
        Record { queue: new_step_history(), source_phrase: None, active_phrase: None }
    }

    /// Records `step` as the newest step, dropping the oldest once the history is full.
    pub fn push(&mut self, step: Step)
        requires
            old(self).inv(),
        ensures
            final(self).inv(),
            final(self).view() == (RecordView {
                queue: history_write(old(self).view().queue, step, STEP_COUNT as nat),
                ..old(self).view()
            }),
    {
        write_step(&mut self.queue, step);
    }

    /// Cuts a phrase of all recorded steps from the recording.
    fn save(&mut self)
        requires
            old(self).inv(),
            old(self).source_phrase is None,
        ensures
            final(self).inv(),
            final(self).view().queue == old(self).view().queue,
            final(self).active_phrase == old(self).active_phrase,
            final(self).source_phrase matches Some(p) && p.steps@ == saved_steps(old(self).view().queue)
                && p.len == old(self).view().queue.len(),
    {
        let mut steps = [Step::default();STEP_COUNT];
        let (front, back) = step_history_slices(&self.queue);
        let ghost q = self.view().queue;
        let len = step_history_len(&self.queue);
        let base = STEP_COUNT - len;
        let mut i: usize = 0;
        while i < front.len()
            invariant
                front@ + back@ == q,
                q.len() == len,
                len <= STEP_COUNT,
                base == STEP_COUNT - len,
                i <= front@.len(),
                forall|j: int| base <= j < base + i ==> steps@[j] == q[j - base],
                forall|j: int|
                    0 <= j < STEP_COUNT && !(base <= j < base + i) ==> steps@[j] == (Step {
                        event: None,
                        reverse: false,
                    }),
            decreases front@.len() - i,
        {
            assert(q[i as int] == front@[i as int]);
            steps[base + i] = front[i];
            i = i + 1;
        }
        let mut k: usize = 0;
        while k < back.len()
            invariant
                front@ + back@ == q,
                q.len() == len,
                len <= STEP_COUNT,
                base == STEP_COUNT - len,
                k <= back@.len(),
                forall|j: int| base <= j < base + front@.len() + k ==> steps@[j] == q[j - base],
                forall|j: int|
                    0 <= j < STEP_COUNT && !(base <= j < base + front@.len() + k) ==> steps@[j] == (Step {
                        event: None,
                        reverse: false,
                    }),
            decreases back@.len() - k,
        {
            assert(q[front@.len() + k] == back@[k as int]);
            steps[base + front.len() + k] = back[k];
            k = k + 1;
        }
        assert(steps@ =~= saved_steps(q));
        self.source_phrase = Some(passive::Phrase { steps, len: len as u16 });
    }

    /// Sets the length of the cut phrase to `len`; with none, cuts one from all
    /// recorded steps instead (of their number). The player stops.
    pub fn trim(&mut self, len: u16)
        requires
            old(self).inv(),
        ensures
            final(self).inv(),
            final(self).view().queue == old(self).view().queue,
            final(self).active_phrase is None,
            final(self).source_phrase matches Some(p) && match old(self).source_phrase {
                Some(q) => p.steps@ == q.steps@ && p.len == len,
                None => p.steps@ == saved_steps(old(self).view().queue) && p.len == old(self).view().queue.len(),
            },
    {
        match self.source_phrase.take() {
            Some(mut phrase) => {
                phrase.len = len;
                self.source_phrase = Some(phrase);
            },
            None => self.save(),
        }
        self.active_phrase = None;
    }

    /// Gives up the cut phrase, if any; the player stops.
    pub fn take(&mut self) -> (r: Option<passive::Phrase>)
        requires
            old(self).inv(),
        ensures
            final(self).inv(),
            r == old(self).source_phrase,
            final(self).view() == (RecordView {
                source_phrase: None,
                active_phrase: None,
                ..old(self).view()
            }),
    {
        self.active_phrase = None;
        self.source_phrase.take()
    }

    /// One clock tick, drawing the step drift (and the kit drift when a kit must be
    /// chosen) from `rand`.
    pub fn tick<D: Drift>(
        &mut self,
        xor_reverse: bool,
        ticks_per_step: u16,
        bank: &Bank,
        kit_index: u8,
        rand: &mut D,
    ) -> (r: (Option<passive::Event>, Transition))
        requires
            old(self).inv(),
            old(self).can_tick(xor_reverse, ticks_per_step),
        ensures
            final(self).inv(),
            exists|ds: usize, dk: usize|
                (final(self).view(), r.0, r.1) == record_tick_spec(
                    old(self).view(),
                    xor_reverse,
                    ticks_per_step,
                    *bank,
                    kit_index,
                    ds as int,
                    dk as int,
                ),
    {
        let (step_drift, kit_drift) = match &self.source_phrase {
            None => (0, 0),
            Some(source) => {
                let ds = rand.drift(DriftKind::Step, source.len as usize);
                let (current, step_index) = match self.active_phrase {
                    Some(player) => (player.active.event, (player.step_index + 1) % source.len),
                    None => (Event::Sync, 0),
                };
                let step = step_of(source, step_index, ds);
                let dk = match step.event {
                    Some(e) => current.kit_drift_for(&e, bank, rand),
                    None => 0,
                };
                (ds, dk)
            },
        };
        self.tick_with(xor_reverse, ticks_per_step, bank, kit_index, step_drift, kit_drift)
    }

    /// One clock tick with the given drifts, as `record_tick_spec` says.
    pub fn tick_with(
        &mut self,
        xor_reverse: bool,
        ticks_per_step: u16,
        bank: &Bank,
        kit_index: u8,
        step_drift: usize,
        kit_drift: usize,
    ) -> (r: (Option<passive::Event>, Transition))
        requires
            old(self).inv(),
            old(self).can_tick(xor_reverse, ticks_per_step),
        ensures
            final(self).inv(),
            (final(self).view(), r.0, r.1) == record_tick_spec(
                old(self).view(),
                xor_reverse,
                ticks_per_step,
                *bank,
                kit_index,
                step_drift as int,
                kit_drift as int,
            ),
    {
        let ghost v = self.view();
        match &self.source_phrase {
            None => (None, Transition::Keep),
            Some(source) => {
                match self.active_phrase {
                    Some(mut player) => {
                        let step_index = (player.step_index + 1) % source.len;
                        let r = play_step_exec(
                            &mut player,
                            step_index,
                            source,
                            xor_reverse,
                            ticks_per_step,
                            bank,
                            kit_index,
                            step_drift,
                            kit_drift,
                        );
                        self.active_phrase = Some(player);
                        r
                    },
                    None => {
                        let (player, e, t) = start_phrase_exec(source, bank, kit_index, step_drift, kit_drift);
                        self.active_phrase = Some(player);
                        (e, t)
                    },
                }
            },
        }
    }
}

/// The step of `source` at `step_index` drifted by `drift`, without overflow.
fn step_of(source: &passive::Phrase, step_index: u16, drift: usize) -> (s: Step)
    requires
        source.wf(),
    ensures
        s == source.steps@[phrase_slot(source.len as int, step_index as int, drift as int)],
{
    let len = source.len as usize;
    proof {
        vstd::arithmetic::div_mod::lemma_add_mod_noop_right(step_index as int, drift as int, len as int);
    }
    source.generate_step(step_index, drift % len)
}

fn start_phrase_exec(source: &passive::Phrase, bank: &Bank, kit_index: u8, step_drift: usize, kit_drift: usize) -> (r: (
    Phrase,
    Option<passive::Event>,
    Transition,
))
    requires
        phrase_playable(*source),
    ensures
        r == start_phrase(*source, *bank, kit_index, step_drift as int, kit_drift as int),
{
    let step = step_of(source, 0, step_drift);
    let mut event = Event::Sync;
    match step.event {
        Some(e) => {
            let t = event.trans_with(&e, bank, kit_index, kit_drift);
            (Phrase { step_index: 0, active: Active { event, reverse: step.reverse } }, Some(e), t)
        },
        None => (Phrase { step_index: 0, active: Active { event, reverse: step.reverse } }, None, Transition::Keep),
    }
}

fn play_step_exec(
    player: &mut Phrase,
    step_index: u16,
    source: &passive::Phrase,
    xor_reverse: bool,
    ticks_per_step: u16,
    bank: &Bank,
    kit_index: u8,
    step_drift: usize,
    kit_drift: usize,
) -> (r: (Option<passive::Event>, Transition))
    requires
        phrase_playable(*source),
        step_fits(*old(player), step_index, *source, xor_reverse, ticks_per_step, step_drift as int),
    ensures
        (*final(player), r.0, r.1) == play_step(
            *old(player),
            step_index,
            *source,
            xor_reverse,
            ticks_per_step,
            *bank,
            kit_index,
            step_drift as int,
            kit_drift as int,
        ),
{
    player.step_index = step_index;
    let step = step_of(source, step_index, step_drift);
    player.active.reverse = step.reverse;
    match step.event {
        Some(e) => {
            let t = player.active.event.trans_with(&e, bank, kit_index, kit_drift);
            (Some(e), t)
        },
        None => {
            player.active.tick(xor_reverse, ticks_per_step);
            (None, Transition::Keep)
        },
    }
}

/// The entries of `phrases` whose slot in `bank` holds a phrase, in order.
pub open spec fn live_phrases(phrases: Seq<u8>, bank: Bank) -> Seq<u8>
    decreases phrases.len(),
{
    if phrases.len() == 0 {
        seq![]
    } else {
        let prev = live_phrases(phrases.drop_last(), bank);
        let v = phrases.last();
        if bank.phrases@[v as int] is Some {
            prev.push(v)
        } else {
            prev
        }
    }
}

/// The sequencer as its operations see it.
pub struct SequenceView {
    pub phrase_index: u16,
    pub phrases: Seq<u8>,
    pub source_phrase: Option<u8>,
    pub active_phrase: Option<Phrase>,
}

/// Moving to the next phrase of the sequence, drifted by `drift`: among the sequenced
/// slots that hold a phrase, the position moves on by one (wrapping) and the slot
/// `drift` places further on (wrapping) becomes the source; nothing changes when no
/// sequenced slot holds a phrase.
pub open spec fn next_phrase(v: SequenceView, bank: Bank, drift: int) -> (SequenceView, Option<u8>) {
    let live = live_phrases(v.phrases, bank);
    if live.len() == 0 {
        (v, None)
    } else {
        let pi = (v.phrase_index + 1) % (live.len() as int);
        let x = live[(pi + drift) % (live.len() as int)];
        (SequenceView { phrase_index: pi as u16, source_phrase: Some(x), ..v }, Some(x))
    }
}

/// One clock tick of the sequencer: the player moves to the next step of its phrase;
/// past the end of the phrase (or when the phrase is gone) the next phrase of the
/// sequence is taken and the step wraps within it; a sequence with no phrase left
/// stops the player.
pub open spec fn sequence_tick_spec(
    v: SequenceView,
    xor_reverse: bool,
    ticks_per_step: u16,
    bank: Bank,
    kit_index: u8,
    phrase_drift: int,
    step_drift: int,
    kit_drift: int,
) -> (SequenceView, Option<passive::Event>, Transition) {
    match v.active_phrase {
        Some(player) => {
            let source = match v.source_phrase {
                Some(x) => bank.phrases@[x as int],
                None => None,
            };
            if source is Some && player.step_index < source->Some_0.len {
                let (p, e, t) = play_step(
                    player,
                    (player.step_index + 1) as u16,
                    source->Some_0,
                    xor_reverse,
                    ticks_per_step,
                    bank,
                    kit_index,
                    step_drift,
                    kit_drift,
                );
                (SequenceView { active_phrase: Some(p), ..v }, e, t)
            } else {
                let (v2, x) = next_phrase(v, bank, phrase_drift);
                match x {
                    Some(x) => {
                        let src = bank.phrases@[x as int]->Some_0;
                        let (p, e, t) = play_step(
                            player,
                            (player.step_index % src.len) as u16,
                            src,
                            xor_reverse,
                            ticks_per_step,
                            bank,
                            kit_index,
                            step_drift,
                            kit_drift,
                        );
                        (SequenceView { active_phrase: Some(p), ..v2 }, e, t)
                    },
                    None => (SequenceView { active_phrase: None, ..v2 }, None, Transition::Keep),
                }
            }
        },
        None => {
            let (v2, x) = next_phrase(v, bank, phrase_drift);
            match x {
                Some(x) => {
                    let (p, e, t) = start_phrase(
                        bank.phrases@[x as int]->Some_0,
                        bank,
                        kit_index,
                        step_drift,
                        kit_drift,
                    );
                    (SequenceView { active_phrase: Some(p), ..v2 }, e, t)
                },
                None => (SequenceView { active_phrase: None, ..v2 }, None, Transition::Keep),
            }
        },
    }
}

/// Every phrase of the bank can be played.
pub open spec fn bank_playable(bank: Bank) -> bool {
    forall|i: int| 0 <= i < PAD_COUNT ==> (#[trigger] bank.phrases@[i] matches Some(p) ==> phrase_playable(p))
}

/// Plays the phrases of a bank in a sequence of phrase slots.
pub struct Sequence {
    pub phrase_index: u16,
    pub phrases: HistoryBuffer<u8, PHRASE_COUNT>,
    pub source_phrase: Option<u8>,
    pub active_phrase: Option<Phrase>,
}

proof fn lemma_live_phrases(phrases: Seq<u8>, bank: Bank)
    requires
        forall|i: int| 0 <= i < phrases.len() ==> phrases[i] < PAD_COUNT,
    ensures
        live_phrases(phrases, bank).len() <= phrases.len(),
        forall|i: int|
            0 <= i < live_phrases(phrases, bank).len() ==> {
                let x = #[trigger] live_phrases(phrases, bank)[i];
                x < PAD_COUNT && bank.phrases@[x as int] is Some
            },
    decreases phrases.len(),
{
    if phrases.len() > 0 {
        lemma_live_phrases(phrases.drop_last(), bank);
    }
}

impl Sequence {
    pub open spec fn view(&self) -> SequenceView {
        SequenceView {
            phrase_index: self.phrase_index,
            phrases: phrase_history(self.phrases),
            source_phrase: self.source_phrase,
            active_phrase: self.active_phrase,
        }
    }

    /// The history never exceeds its depth; the position and the source stay in range.
    pub open spec fn inv(&self) -> bool {
        &&& self.view().phrases.len() <= PHRASE_COUNT
        &&& self.phrase_index < PHRASE_COUNT
        &&& self.source_phrase matches Some(x) ==> x < PAD_COUNT
    }

    /// The sequencer can take a clock tick: every sequenced slot exists, the bank's
    /// phrases can be played and the player's tick stays in range whatever step it
    /// moves to.
    pub open spec fn can_tick(&self, xor_reverse: bool, ticks_per_step: u16, bank: Bank) -> bool {
        &&& forall|i: int| 0 <= i < self.view().phrases.len() ==> #[trigger] self.view().phrases[i] < PAD_COUNT
        &&& bank_playable(bank)
        &&& self.active_phrase matches Some(p) ==> tick_room(p.active.event, ticks_per_step)
    }

    /// No position, no phrases, no source, no player.
    pub fn new() -> (s: Self)
        ensures
            s.inv(),
            s.view() == (SequenceView {
                phrase_index: 0,
                phrases: Seq::empty(),
                source_phrase: None,
                active_phrase: None,
            }),
    {
        Sequence { phrase_index: 0, phrases: new_phrase_history(), source_phrase: None, active_phrase: None }
    }

    /// Empties the sequence; the player keeps playing.
    pub fn clear(&mut self)
        requires
            old(self).inv(),
        ensures
            final(self).inv(),
            final(self).view() == (SequenceView {
                phrase_index: 0,
                phrases: Seq::empty(),
                source_phrase: None,
                active_phrase: old(self).active_phrase,
            }),
    {
        self.phrase_index = 0;
        clear_phrases(&mut self.phrases);
        self.source_phrase = None;
    }

    /// Appends the phrase slot `index`, dropping the oldest once the history is full.
    pub fn push(&mut self, index: u8)
        requires
            old(self).inv(),
        ensures
            final(self).inv(),
            final(self).view() == (SequenceView {
                phrases: history_write(old(self).view().phrases, index, PHRASE_COUNT as nat),
                ..old(self).view()
            }),
    {
        write_phrase(&mut self.phrases, index);
    }

    fn live(&self, bank: &Bank) -> (r: Vec<u8>)
        requires
            forall|i: int| 0 <= i < self.view().phrases.len() ==> #[trigger] self.view().phrases[i] < PAD_COUNT,
        ensures
            r@ == live_phrases(self.view().phrases, *bank),
    {
        let all = phrases_oldest_first(&self.phrases);
        assert forall|j: int| 0 <= j < all@.len() implies #[trigger] all@[j] < PAD_COUNT by {
            assert(all@[j] == self.view().phrases[j]);
        }
        let mut r: Vec<u8> = Vec::new();
        let mut i: usize = 0;
        while i < all.len()
            invariant
                all@ == self.view().phrases,
                forall|j: int| 0 <= j < all@.len() ==> #[trigger] all@[j] < PAD_COUNT,
                i <= all@.len(),
                r@ == live_phrases(all@.subrange(0, i as int), *bank),
            decreases all@.len() - i,
        {
            assert(all@.subrange(0, i + 1).drop_last() == all@.subrange(0, i as int));
            let x = all[i];
            if bank.phrases[x as usize].is_some() {
                r.push(x);
            }
            i = i + 1;
        }
        assert(all@.subrange(0, all@.len() as int) == all@);
        r
    }

    /// The slot that moving to the next phrase with `drift` would take, and the new
    /// position, without moving.
    fn peek_next(&self, bank: &Bank, drift: usize) -> (r: Option<(u16, u8)>)
        requires
            self.inv(),
            forall|i: int| 0 <= i < self.view().phrases.len() ==> #[trigger] self.view().phrases[i] < PAD_COUNT,
        ensures
            match r {
                Some((pi, x)) => next_phrase(self.view(), *bank, drift as int) == (
                    SequenceView { phrase_index: pi, source_phrase: Some(x), ..self.view() },
                    Some(x),
                ) && x < PAD_COUNT && bank.phrases@[x as int] is Some && pi < PHRASE_COUNT,
                None => next_phrase(self.view(), *bank, drift as int) == (self.view(), None::<u8>),
            },
    {
        let live = self.live(bank);
        proof {
            lemma_live_phrases(self.view().phrases, *bank);
        }
        let count = live.len();
        if count == 0 {
            return None;
        }
        let pi = (self.phrase_index as usize + 1) % count;
        let k = (pi + drift % count) % count;
        proof {
            vstd::arithmetic::div_mod::lemma_add_mod_noop_right(pi as int, drift as int, count as int);
        }
        Some((pi as u16, live[k]))
    }

    /// Moves to the next phrase of the sequence with `drift`, as `next_phrase` says,
    /// and gives the slot of the new source.
    pub fn try_increment_phrase(&mut self, bank: &Bank, drift: usize) -> (r: Option<u8>)
        requires
            old(self).inv(),
            forall|i: int| 0 <= i < old(self).view().phrases.len() ==> #[trigger] old(self).view().phrases[i] < PAD_COUNT,
        ensures
            final(self).inv(),
            (final(self).view(), r) == next_phrase(old(self).view(), *bank, drift as int),
            r matches Some(x) ==> x < PAD_COUNT && bank.phrases@[x as int] is Some,
    {
        match self.peek_next(bank, drift) {
            Some((pi, x)) => {
                self.phrase_index = pi;
                self.source_phrase = Some(x);
                Some(x)
            },
            None => None,
        }
    }
}

impl Sequence {
    /// One clock tick with the given drifts, as `sequence_tick_spec` says.
    pub fn tick_with(
        &mut self,
        xor_reverse: bool,
        ticks_per_step: u16,
        bank: &Bank,
        kit_index: u8,
        phrase_drift: usize,
        step_drift: usize,
        kit_drift: usize,
    ) -> (r: (Option<passive::Event>, Transition))
        requires
            old(self).inv(),
            old(self).can_tick(xor_reverse, ticks_per_step, *bank),
        ensures
            final(self).inv(),
            (final(self).view(), r.0, r.1) == sequence_tick_spec(
                old(self).view(),
                xor_reverse,
                ticks_per_step,
                *bank,
                kit_index,
                phrase_drift as int,
                step_drift as int,
                kit_drift as int,
            ),
    {
        match self.active_phrase {
            Some(mut player) => {
                let current = match self.source_phrase {
                    Some(x) => {
                        match &bank.phrases[x as usize] {
                            Some(src) => if player.step_index < src.len {
                                Some(src)
                            } else {
                                None
                            },
                            None => None,
                        }
                    },
                    None => None,
                };
                match current {
                    Some(src) => {
                        proof {
                            assert(phrase_playable(*src));
                        }
                        let step_index = player.step_index + 1;
                        let r = play_step_exec(
                            &mut player,
                            step_index,
                            src,
                            xor_reverse,
                            ticks_per_step,
                            bank,
                            kit_index,
                            step_drift,
                            kit_drift,
                        );
                        self.active_phrase = Some(player);
                        r
                    },
                    None => {
                        match self.try_increment_phrase(bank, phrase_drift) {
                            Some(x) => {
                                match &bank.phrases[x as usize] {
                                    Some(src) => {
                                        proof {
                                            assert(phrase_playable(*src));
                                        }
                                        let step_index = player.step_index % src.len;
                                        let r = play_step_exec(
                                            &mut player,
                                            step_index,
                                            src,
                                            xor_reverse,
                                            ticks_per_step,
                                            bank,
                                            kit_index,
                                            step_drift,
                                            kit_drift,
                                        );
                                        self.active_phrase = Some(player);
                                        r
                                    },
                                    None => (None, Transition::Keep),
                                }
                            },
                            None => {
                                self.active_phrase = None;
                                (None, Transition::Keep)
                            },
                        }
                    },
                }
            },
            None => {
                match self.try_increment_phrase(bank, phrase_drift) {
                    Some(x) => {
                        match &bank.phrases[x as usize] {
                            Some(src) => {
                                proof {
                                    assert(phrase_playable(*src));
                                }
                                let (player, e, t) = start_phrase_exec(src, bank, kit_index, step_drift, kit_drift);
                                self.active_phrase = Some(player);
                                (e, t)
                            },
                            None => (None, Transition::Keep),
                        }
                    },
                    None => {
                        self.active_phrase = None;
                        (None, Transition::Keep)
                    },
                }
            },
        }
    }

    /// One clock tick, drawing from `rand` the phrase drift (when the next phrase must
    /// be taken), the step drift and the kit drift (when a kit must be chosen).
    pub fn tick<D: Drift>(
        &mut self,
        xor_reverse: bool,
        ticks_per_step: u16,
        bank: &Bank,
        kit_index: u8,
        rand: &mut D,
    ) -> (r: (Option<passive::Event>, Transition))
        requires
            old(self).inv(),
            old(self).can_tick(xor_reverse, ticks_per_step, *bank),
        ensures
            final(self).inv(),
            exists|dp: usize, ds: usize, dk: usize|
                (final(self).view(), r.0, r.1) == sequence_tick_spec(
                    old(self).view(),
                    xor_reverse,
                    ticks_per_step,
                    *bank,
                    kit_index,
                    dp as int,
                    ds as int,
                    dk as int,
                ),
    {
        // the phrase and step the player moves to, and the event it is on
        let mut phrase_drift: usize = 0;
        let current: Option<(u8, u16)> = match self.active_phrase {
            Some(player) => match self.source_phrase {
                Some(x) => match &bank.phrases[x as usize] {
                    Some(src) => if player.step_index < src.len {
                        Some((x, player.step_index + 1))
                    } else {
                        None
                    },
                    None => None,
                },
                None => None,
            },
            None => None,
        };
        let target: Option<(u8, u16)> = match current {
            Some(t) => Some(t),
            None => {
                let live = self.live(bank);
                if live.len() != 0 {
                    phrase_drift = rand.drift(DriftKind::Phrase, live.len());
                }
                match self.peek_next(bank, phrase_drift) {
                    Some((_, x)) => match self.active_phrase {
                        Some(player) => match &bank.phrases[x as usize] {
                            Some(src) => {
                                proof {
                                    assert(phrase_playable(*src));
                                }
                                Some((x, player.step_index % src.len))
                            },
                            None => None,
                        },
                        None => Some((x, 0)),
                    },
                    None => None,
                }
            },
        };
        let mut step_drift: usize = 0;
        let mut kit_drift: usize = 0;
        match target {
            Some((x, step_index)) => match &bank.phrases[x as usize] {
                Some(src) => {
                    proof {
                        assert(phrase_playable(*src));
                    }
                    step_drift = rand.drift(DriftKind::Step, src.len as usize);
                    let step = step_of(src, step_index, step_drift);
                    let event = match self.active_phrase {
                        Some(player) => player.active.event,
                        None => Event::Sync,
                    };
                    match step.event {
                        Some(e) => {
                            kit_drift = event.kit_drift_for(&e, bank, rand);
                        },
                        None => {},
                    }
                },
                None => {},
            },
            None => {},
        }
        self.tick_with(xor_reverse, ticks_per_step, bank, kit_index, phrase_drift, step_drift, kit_drift)
    }
}

/// A phrase cut from a recording of `m` steps and trimmed to `len` of them (`len`
/// at most `m`; at first `len` is `m`) replays the last `len` recorded steps, in the
/// order they were recorded, over and over: step `i` of the phrase (without drift) is
/// recorded step `m - len + i % len`.
pub proof fn lemma_cut_phrase_replays(queue: Seq<Step>, len: int, i: int)
    requires
        queue.len() <= STEP_COUNT,
        0 < len <= queue.len(),
        0 <= i,
    ensures
        saved_steps(queue)[phrase_slot(len, i, 0)] == queue[queue.len() - len + i % len],
{
}

/// The recorder after `n` clock ticks from `r`, each without step drift and with the
/// given direction, tick `i` (counting from 0) with kit drift `kit_drifts(i)`; and the
/// event the last of them began, if any.
pub open spec fn record_run(
    r: RecordView,
    n: nat,
    xor_reverse: bool,
    ticks_per_step: u16,
    bank: Bank,
    kit_index: u8,
    kit_drifts: spec_fn(nat) -> int,
) -> (RecordView, Option<passive::Event>)
    decreases n,
{
    if n == 0 {
        (r, None)
    } else {
        let (v, _) = record_run(r, (n - 1) as nat, xor_reverse, ticks_per_step, bank, kit_index, kit_drifts);
        let (v2, e, _) = record_tick_spec(v, xor_reverse, ticks_per_step, bank, kit_index, 0, kit_drifts((n - 1) as nat));
        (v2, e)
    }
}

/// A cut phrase of `len` steps, played from no player without step drift (whatever
/// kit drifts are drawn), loops through its last `len` steps with period `len`: tick
/// number `n` (counting from 0) is on step `n % len`, begins that step's event (if any)
/// and takes its direction.
pub proof fn lemma_recorder_replays(
    r: RecordView,
    n: nat,
    xor_reverse: bool,
    ticks_per_step: u16,
    bank: Bank,
    kit_index: u8,
    kit_drifts: spec_fn(nat) -> int,
)
    requires
        r.source_phrase matches Some(ph) && ph.wf(),
        r.active_phrase is None,
    ensures
        ({
            let ph = r.source_phrase->Some_0;
            let step = ph.steps@[STEP_COUNT - ph.len + (n as int) % (ph.len as int)];
            let (v, e) = record_run(r, n + 1, xor_reverse, ticks_per_step, bank, kit_index, kit_drifts);
            &&& v.source_phrase == r.source_phrase
            &&& v.active_phrase matches Some(p) && p.step_index == (n as int) % (ph.len as int)
                && p.active.reverse == step.reverse
            &&& e == step.event
        }),
    decreases n,
{
    let ph = r.source_phrase->Some_0;
    let len = ph.len as int;
    if n == 0 {
        vstd::arithmetic::div_mod::lemma_small_mod(0, len as nat);
        assert(phrase_slot(len, 0, 0) == STEP_COUNT - len);
        assert(record_run(r, 0, xor_reverse, ticks_per_step, bank, kit_index, kit_drifts).0 == r);
        let (v1, e1, _) = record_tick_spec(r, xor_reverse, ticks_per_step, bank, kit_index, 0, kit_drifts(0));
        assert(record_run(r, 1, xor_reverse, ticks_per_step, bank, kit_index, kit_drifts) == (v1, e1));
    } else {
        let m = (n - 1) as nat;
        lemma_recorder_replays(r, m, xor_reverse, ticks_per_step, bank, kit_index, kit_drifts);
        let (v0, _) = record_run(r, n, xor_reverse, ticks_per_step, bank, kit_index, kit_drifts);
        let p0 = v0.active_phrase->Some_0;
        assert(p0.step_index == (m as int) % len);
        vstd::arithmetic::div_mod::lemma_mod_bound(m as int, len);
        vstd::arithmetic::div_mod::lemma_mod_bound(n as int, len);
        vstd::arithmetic::div_mod::lemma_add_mod_noop_right(1, m as int, len);
        assert((p0.step_index + 1) % len == (n as int) % len);
        let k = (n as int) % len;
        assert((((p0.step_index + 1) % len) as u16) as int == k);
        vstd::arithmetic::div_mod::lemma_mod_twice(n as int, len);
        assert(phrase_slot(len, k, 0) == STEP_COUNT - len + k);
        let (v1, e1, _) = record_tick_spec(v0, xor_reverse, ticks_per_step, bank, kit_index, 0, kit_drifts(n));
        assert(record_run(r, n + 1, xor_reverse, ticks_per_step, bank, kit_index, kit_drifts) == (v1, e1));
    }
}

/// The tick of the pad `e` plays, or `None` when it is in time with the clock.
pub open spec fn tick_of(e: Event) -> Option<int> {
    match e {
        Event::Sync => None,
        Event::Hold { tick, .. } => Some(tick as int),
        Event::Loop { tick, .. } => Some(tick as int),
    }
}

/// Keeping time: each step the tick of a held or looped onset moves by `ticks_per_step`,
/// up when playing forwards and down when playing backwards, on the same pad and (for a
/// loop) with the same length; an event in time with the clock stays as it is.
pub proof fn lemma_tick_moves_one_step(e: Event, down: bool, ticks_per_step: u16)
    requires
        ticks_per_step <= i16::MAX,
        tick_of(e) matches Some(t) ==> i16::MIN <= (if down { t - ticks_per_step } else { t
            + ticks_per_step }) <= i16::MAX,
    ensures
        ({
            let moved = tick_moved(e, down, ticks_per_step);
            match e {
                Event::Sync => moved == Event::Sync,
                Event::Hold { index, tick } => moved matches Event::Hold { index: i, tick: t } && i == index && t
                    == (if down { tick - ticks_per_step } else { tick + ticks_per_step }),
                Event::Loop { index, tick, len } => moved matches Event::Loop { index: i, tick: t, len: l } && i
                    == index && l == len && t == (if down { tick - ticks_per_step } else { tick + ticks_per_step }),
            }
        }),
{
    assert((ticks_per_step as i16) as int == ticks_per_step as int);
}

/// Answering a loop input on pad `index` with length `len`: whenever an onset is opened
/// or the playing one recast, the player ends up looping on pad `index` with length
/// `len`, from tick 0 when it was in time with the clock and otherwise keeping its tick;
/// a player already on pad `index` is recast; an opened onset is the one on pad `index`,
/// replacing the playing one unless the player was in time with the clock; otherwise the
/// player stays as it was.
pub proof fn lemma_loop_input(cur: Event, index: u8, len: u16, bank: Bank, kit_index: u8, drift: int)
    ensures
        ({
            let (e, t) = trans_spec(cur, passive::Event::Loop { index, len }, bank, kit_index, drift);
            &&& (t is Open || t is Recast) ==> e == (Event::Loop {
                index,
                tick: match cur {
                    Event::Sync => 0,
                    Event::Hold { tick, .. } => tick,
                    Event::Loop { tick, .. } => tick,
                },
                len,
            })
            &&& (cur matches Event::Hold { index: i, .. } && i == index) ==> t == Transition::Recast
            &&& (cur matches Event::Loop { index: i, .. } && i == index) ==> t == Transition::Recast
            &&& t matches Transition::Open { pad, replace, .. } ==> pad == index && replace == !(cur is Sync)
            &&& !(t is Open || t is Recast) ==> e == cur
            &&& cur is Sync ==> match kit_choice(bank.kits@, kit_index as int, drift) {
                None => t == Transition::Keep,
                Some(k) => if bank.kits@[k]->Some_0.onsets@[index as int] is Some {
                    t == (Transition::Open { kit: k as usize, pad: index, replace: false })
                } else {
                    t == (Transition::Fade { replace: false })
                },
            }
        }),
{
}

/// Answering a hold input on pad `index`: an opened onset is the one on pad `index`, held
/// from tick 0 and replacing the playing one unless the player was in time with the
/// clock; a loop is recast into a hold of its own pad from tick 0, opening nothing;
/// otherwise the player stays as it was.
pub proof fn lemma_hold_input(cur: Event, index: u8, bank: Bank, kit_index: u8, drift: int)
    ensures
        ({
            let (e, t) = trans_spec(cur, passive::Event::Hold { index }, bank, kit_index, drift);
            &&& t matches Transition::Open { pad, replace, .. } ==> pad == index && replace == !(cur is Sync) && e
                == (Event::Hold { index, tick: 0 })
            &&& cur matches Event::Loop { index: i, .. } ==> t == Transition::Recast && e == (Event::Hold {
                index: i,
                tick: 0,
            })
            &&& !(t is Open) && !(cur is Loop) ==> e == cur
            &&& !(cur is Loop) ==> match kit_choice(bank.kits@, kit_index as int, drift) {
                None => t == Transition::Keep,
                Some(k) => if bank.kits@[k]->Some_0.onsets@[index as int] is Some {
                    t == (Transition::Open { kit: k as usize, pad: index, replace: cur is Hold })
                } else {
                    t == (Transition::Fade { replace: cur is Hold })
                },
            }
        }),
{
}

/// A sync input puts the player in time with the clock, stopping what it played.
pub proof fn lemma_sync_input(cur: Event, bank: Bank, kit_index: u8, drift: int)
    ensures
        trans_spec(cur, passive::Event::Sync, bank, kit_index, drift) == (Event::Sync, if cur is Sync {
            Transition::Keep
        } else {
            Transition::Stop
        }),
{
}

/// The sequencer plays each phrase to its end and then moves on. While the player's step
/// is before the end of its phrase, a tick moves it one step on in the same phrase. Once
/// it reaches the end (or its phrase is gone), the tick moves the position on by one
/// among the sequenced slots that hold a phrase (wrapping), takes the slot `phrase_drift`
/// places after the new position (wrapping) as the source, and wraps the step within
/// that phrase; with no such slot the player stops. Without a player, a tick starts the
/// phrase at that same next position on its first step. The sequence itself stays.
pub proof fn lemma_sequence_moves_on(
    v: SequenceView,
    xor_reverse: bool,
    ticks_per_step: u16,
    bank: Bank,
    kit_index: u8,
    phrase_drift: int,
    step_drift: int,
    kit_drift: int,
)
    requires
        v.phrases.len() <= PHRASE_COUNT,
        forall|i: int| 0 <= i < v.phrases.len() ==> v.phrases[i] < PAD_COUNT,
        bank_playable(bank),
    ensures
        ({
            let (v2, e, _) = sequence_tick_spec(
                v,
                xor_reverse,
                ticks_per_step,
                bank,
                kit_index,
                phrase_drift,
                step_drift,
                kit_drift,
            );
            let live = live_phrases(v.phrases, bank);
            let playing = v.active_phrase matches Some(p) && v.source_phrase matches Some(x)
                && bank.phrases@[x as int] matches Some(src) && p.step_index < src.len;
            &&& v2.phrases == v.phrases
            &&& playing ==> {
                let src = bank.phrases@[v.source_phrase->Some_0 as int]->Some_0;
                let step = src.steps@[phrase_slot(
                    src.len as int,
                    v.active_phrase->Some_0.step_index + 1,
                    step_drift,
                )];
                &&& v2.source_phrase == v.source_phrase
                &&& v2.phrase_index == v.phrase_index
                &&& v2.active_phrase matches Some(p2) && p2.step_index == v.active_phrase->Some_0.step_index + 1
                    && p2.active.reverse == step.reverse
                &&& e == step.event
            }
            &&& !playing && live.len() > 0 ==> {
                let pi = (v.phrase_index + 1) % (live.len() as int);
                let x = live[(pi + phrase_drift) % (live.len() as int)];
                let src = bank.phrases@[x as int]->Some_0;
                let k = match v.active_phrase {
                    Some(p) => (p.step_index as int) % (src.len as int),
                    None => 0,
                };
                let step = src.steps@[phrase_slot(src.len as int, k, step_drift)];
                &&& v2.phrase_index == pi
                &&& v2.source_phrase == Some(x)
                &&& v.phrases.contains(x) && bank.phrases@[x as int] is Some
                &&& v2.active_phrase matches Some(p2) && p2.step_index == k && p2.active.reverse == step.reverse
                &&& e == step.event
            }
            &&& !playing && live.len() == 0 ==> v2.active_phrase is None && e is None && v2.source_phrase
                == v.source_phrase
        }),
{
    let live = live_phrases(v.phrases, bank);
    lemma_live_phrases(v.phrases, bank);
    if live.len() > 0 {
        let pi = (v.phrase_index + 1) % (live.len() as int);
        let j = (pi + phrase_drift) % (live.len() as int);
        vstd::arithmetic::div_mod::lemma_mod_bound(v.phrase_index + 1, live.len() as int);
        vstd::arithmetic::div_mod::lemma_mod_bound(pi + phrase_drift, live.len() as int);
        let x = live[j];
        lemma_live_phrases_in_sequence(v.phrases, bank, j);
        let src = bank.phrases@[x as int]->Some_0;
        assert(phrase_playable(src));
        match v.active_phrase {
            Some(p) => {
                vstd::arithmetic::div_mod::lemma_mod_bound(p.step_index as int, src.len as int);
            },
            None => {},
        }
    }
}

/// Each sequenced slot that holds a phrase comes from the sequence.
proof fn lemma_live_phrases_in_sequence(phrases: Seq<u8>, bank: Bank, j: int)
    requires
        0 <= j < live_phrases(phrases, bank).len(),
    ensures
        phrases.contains(live_phrases(phrases, bank)[j]),
    decreases phrases.len(),
{
    if phrases.len() > 0 {
        let prev = live_phrases(phrases.drop_last(), bank);
        let v = phrases.last();
        if j < prev.len() {
            lemma_live_phrases_in_sequence(phrases.drop_last(), bank, j);
            let k = choose|k: int| 0 <= k < phrases.drop_last().len() && phrases.drop_last()[k] == prev[j];
            assert(phrases[k] == prev[j]);
        } else {
            assert(phrases[phrases.len() - 1] == v);
        }
    }
}

/// A player holding or looping an onset moves its tick up by `ticks_per_step` each step
/// when it plays forwards (its direction and the bank's `xor_reverse` agree) and down by
/// as much when it plays backwards; its direction, pad and loop length stay.
pub proof fn lemma_player_keeps_time(a: Active, xor_reverse: bool, ticks_per_step: u16)
    requires
        ticks_per_step <= i16::MAX,
        tick_of(a.event) matches Some(t) ==> i16::MIN <= t - ticks_per_step && t + ticks_per_step <= i16::MAX,
    ensures
        ({
            let b = active_ticked(a, xor_reverse, ticks_per_step);
            let forwards = a.reverse == xor_reverse;
            &&& b.reverse == a.reverse
            &&& a.event is Sync ==> b.event is Sync
            &&& tick_of(a.event) matches Some(t) ==> tick_of(b.event) == Some(
                if forwards { t + ticks_per_step } else { t - ticks_per_step },
            )
            &&& a.event matches Event::Hold { index, .. } ==> b.event matches Event::Hold { index: i, .. } && i == index
            &&& a.event matches Event::Loop { index, len, .. } ==> b.event matches Event::Loop { index: i, len: l, .. }
                && i == index && l == len
        }),
{
    lemma_tick_moves_one_step(a.event, a.reverse != xor_reverse, ticks_per_step);
}

/// The phrases a sequence plays are its slots that hold a phrase, in sequence order,
/// each as often as it was sequenced.
pub proof fn lemma_live_phrases_filter(phrases: Seq<u8>, bank: Bank)
    ensures
        live_phrases(phrases, bank) == phrases.filter(|x: u8| bank.phrases@[x as int] is Some),
    decreases phrases.len(),
{
    reveal(Seq::filter);
    if phrases.len() > 0 {
        lemma_live_phrases_filter(phrases.drop_last(), bank);
    }
}

} // verus!
