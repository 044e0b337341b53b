//! The sequencing side of a bank: pad input, recorder and sequencer players, the
//! bank they draw kits and phrases from, and what each clock tick does to them.
use vstd::prelude::*;

use crate::active::{
    bank_playable, input_ok, input_tick_spec, phrase_playable, record_tick_spec, sequence_tick_spec,
    tick_room, Active, Drift, Event, Input, Record, RecordView, Sequence, SequenceView, Transition,
};
use crate::history::history_write;
use crate::pads::{Bank, Kit};
use crate::passive::{self, Onset, Step};
use crate::{PAD_COUNT, PHRASE_COUNT, STEP_COUNT};

verus! {

/// One of the three players of a bank.
#[derive(Copy, Clone, Debug, PartialEq, Eq, Structural)]
pub enum Player {
    Input,
    Record,
    Sequence,
}

/// What one clock tick asks of the sample reader: the transition of each player, the
/// event that began on this step (if any), and the player whose onset must be
/// brought back in time with the clock (when no event began).
#[derive(Copy, Clone, Debug, PartialEq, Eq, Structural)]
pub struct TickResult {
    pub input: Transition,
    pub record: Transition,
    pub sequence: Transition,
    pub event: Option<passive::Event>,
    pub sync: Option<Player>,
}

/// A bank handler as its operations see it.
pub struct BankView {
    pub quant: bool,
    pub ticks_per_step: u16,
    pub bank: Bank,
    pub kit_index: u8,
    pub input: Input,
    pub record: RecordView,
    pub sequence: SequenceView,
}

/// The direction a bank plays in: pad input reversed by the recorder's player, or
/// else by the sequencer's player, if either plays.
pub open spec fn reverse_of(input: Input, record: Option<crate::active::Phrase>, sequence: Option<
    crate::active::Phrase,
>) -> bool {
    input.active.reverse != match record {
        Some(p) => p.active.reverse,
        None => match sequence {
            Some(p) => p.active.reverse,
            None => false,
        },
    }
}

/// The first player that is not in time with the clock: pad input, then the
/// recorder's player, then the sequencer's.
pub open spec fn audible_of(input: Input, record: Option<crate::active::Phrase>, sequence: Option<
    crate::active::Phrase,
>) -> Option<Player> {
    if !(input.active.event is Sync) {
        Some(Player::Input)
    } else if record matches Some(p) && !(p.active.event is Sync) {
        Some(Player::Record)
    } else if sequence matches Some(p) && !(p.active.event is Sync) {
        Some(Player::Sequence)
    } else {
        None
    }
}

/// The drifts one clock tick may draw.
#[derive(Copy, Clone, Debug)]
pub struct TickDraws {
    pub input_kit: usize,
    pub record_step: usize,
    pub record_kit: usize,
    pub sequence_phrase: usize,
    pub sequence_step: usize,
    pub sequence_kit: usize,
}

/// One clock tick of a bank: quantizing starts; pad input, then the recorder, then
/// the sequencer take their tick (the latter two reversed along with pad input); the
/// event of the first of them that began one is recorded with the bank's direction;
/// when none began, the first audible player is brought back in time.
pub open spec fn bank_tick_spec(v: BankView, d: TickDraws) -> (BankView, TickResult) {
    let (input, e1, t1) = input_tick_spec(v.input, v.ticks_per_step, v.bank, v.kit_index, d.input_kit as int);
    let (record, e2, t2) = record_tick_spec(
        v.record,
        input.active.reverse,
        v.ticks_per_step,
        v.bank,
        v.kit_index,
        d.record_step as int,
        d.record_kit as int,
    );
    let (sequence, e3, t3) = sequence_tick_spec(
        v.sequence,
        input.active.reverse,
        v.ticks_per_step,
        v.bank,
        v.kit_index,
        d.sequence_phrase as int,
        d.sequence_step as int,
        d.sequence_kit as int,
    );
    let event = if e1 is Some {
        e1
    } else if e2 is Some {
        e2
    } else {
        e3
    };
    let reverse = reverse_of(input, record.active_phrase, sequence.active_phrase);
    let record2 = RecordView {
        queue: history_write(record.queue, Step { event, reverse }, STEP_COUNT as nat),
        ..record
    };
    let sync = if event is None {
        audible_of(input, record2.active_phrase, sequence.active_phrase)
    } else {
        None
    };
    (
        BankView { quant: true, input, record: record2, sequence, ..v },
        TickResult { input: t1, record: t2, sequence: t3, event, sync },
    )
}

/// The sequencing state of one bank.
pub struct BankHandler {
    /// whether pad input waits for the next clock tick
    pub quant: bool,
    pub ticks_per_step: u16,
    pub bank: Bank,
    pub kit_index: u8,
    pub input: Input,
    pub record: Record,
    pub sequence: Sequence,
}

impl BankHandler {
    pub open spec fn view(&self) -> BankView {
        BankView {
            quant: self.quant,
            ticks_per_step: self.ticks_per_step,
            bank: self.bank,
            kit_index: self.kit_index,
            input: self.input,
            record: self.record.view(),
            sequence: self.sequence.view(),
        }
    }

    pub open spec fn inv(&self) -> bool {
        self.record.inv() && self.sequence.inv()
    }

    /// The bank can take a clock tick: a waiting pad event names an existing pad,
    /// every tick can move a step either way, the recorder's phrase and the bank's
    /// phrases can be played, and every sequenced slot exists.
    pub open spec fn can_tick(&self) -> bool {
        let tps = self.ticks_per_step;
        &&& (self.input.buffer.event matches Some(e) ==> input_ok(e))
        &&& tick_room(self.input.active.event, tps)
        &&& (self.record.source_phrase matches Some(s) ==> phrase_playable(s))
        &&& (self.record.active_phrase matches Some(p) ==> tick_room(p.active.event, tps))
        &&& bank_playable(self.bank)
        &&& forall|i: int|
            0 <= i < self.sequence.view().phrases.len() ==> #[trigger] self.sequence.view().phrases[i]
                < PAD_COUNT
        &&& (self.sequence.active_phrase matches Some(p) ==> tick_room(p.active.event, tps))
    }

    /// A bank handler with `ticks_per_step` ticks to a step, an empty bank, all players
    /// in time with the clock and nothing recorded or sequenced.
    pub fn new(ticks_per_step: u16) -> (h: Self)
        ensures
            h.inv(),
            !h.quant,
            h.ticks_per_step == ticks_per_step,
            h.kit_index == 0,
            forall|i: int| 0 <= i < PAD_COUNT ==> h.bank.kits@[i] is None && h.bank.phrases@[i] is None,
            h.input.buffer.event is None && !h.input.buffer.reverse,
            h.input.active == Active::default_spec(),
            h.view().record == (RecordView { queue: Seq::empty(), source_phrase: None, active_phrase: None }),
            h.view().sequence == (SequenceView {
                phrase_index: 0,
                phrases: Seq::empty(),
                source_phrase: None,
                active_phrase: None,
            }),
    {
        BankHandler {
            quant: false,
            ticks_per_step,
            bank: Bank::default(),
            kit_index: 0,
            input: Input::default(),
            record: Record::new(),
            sequence: Sequence::new(),
        }
    }

    /// Puts `onset` on pad `pad_index` of the current kit, creating the kit if the slot
    /// is empty.
    pub fn assign_onset(&mut self, pad_index: u8, onset: Onset)
        requires
            old(self).kit_index < PAD_COUNT,
            pad_index < PAD_COUNT,
        ensures
            final(self).view() == (BankView { bank: final(self).bank, ..old(self).view() }),
            final(self).bank.phrases == old(self).bank.phrases,
            forall|k: int|
                0 <= k < PAD_COUNT && k != old(self).kit_index ==> final(self).bank.kits@[k] == old(
                    self,
                ).bank.kits@[k],
            final(self).bank.kits@[old(self).kit_index as int] matches Some(kit) && {
                &&& kit.onsets@[pad_index as int] == Some(onset)
                &&& forall|p: int|
                    0 <= p < PAD_COUNT && p != pad_index ==> kit.onsets@[p] == match old(
                        self,
                    ).bank.kits@[old(self).kit_index as int] {
                        Some(old_kit) => old_kit.onsets@[p],
                        None => None,
                    }
            },
    {
        let k = self.kit_index as usize;
        let mut kit = match self.bank.kits[k].take() {
            Some(kit) => kit,
            None => Kit::default(),
        };
        kit.onsets[pad_index as usize] = Some(onset);
        self.bank.kits[k] = Some(kit);
    }

    /// Answers `event` on pad input at once.
    pub fn force_event<D: Drift>(&mut self, event: passive::Event, rand: &mut D) -> (t: Transition)
        requires
            input_ok(event),
        ensures
            exists|d: usize|
                (final(self).input.active.event, t) == crate::active::trans_spec(
                    old(self).input.active.event,
                    event,
                    old(self).bank,
                    old(self).kit_index,
                    d as int,
                ),
            final(self).view() == (BankView {
                input: Input {
                    active: Active { event: final(self).input.active.event, ..old(self).input.active },
                    ..old(self).input
                },
                ..old(self).view()
            }),
            !crate::active::draws_kit(old(self).input.active.event, event, old(self).bank) ==> {
                &&& *final(rand) == *old(rand)
                &&& (final(self).input.active.event, t) == crate::active::trans_spec(
                    old(self).input.active.event,
                    event,
                    old(self).bank,
                    old(self).kit_index,
                    0,
                )
            },
    {
        self.input.active.event.trans(&event, &self.bank, self.kit_index, rand)
    }

    /// Pad input `event`: it waits for the next clock tick once quantizing, otherwise
    /// it is answered at once.
    pub fn push_event<D: Drift>(&mut self, event: passive::Event, rand: &mut D) -> (t: Transition)
        requires
            input_ok(event),
        ensures
            old(self).quant ==> t == Transition::Keep && *final(rand) == *old(rand) && final(self).view() == (
            BankView {
                input: Input { buffer: Step { event: Some(event), ..old(self).input.buffer }, ..old(self).input },
                ..old(self).view()
            }),
            !old(self).quant && !crate::active::draws_kit(old(self).input.active.event, event, old(self).bank) ==> {
                &&& *final(rand) == *old(rand)
                &&& (final(self).input.active.event, t) == crate::active::trans_spec(
                    old(self).input.active.event,
                    event,
                    old(self).bank,
                    old(self).kit_index,
                    0,
                )
            },
            !old(self).quant ==> (exists|d: usize|
                (final(self).input.active.event, t) == crate::active::trans_spec(
                    old(self).input.active.event,
                    event,
                    old(self).bank,
                    old(self).kit_index,
                    d as int,
                )) && final(self).view() == (BankView {
                input: Input {
                    active: Active { event: final(self).input.active.event, ..old(self).input.active },
                    ..old(self).input
                },
                ..old(self).view()
            }),
    {
        if self.quant {
            self.input.buffer.event = Some(event);
            Transition::Keep
        } else {
            self.force_event(event, rand)
        }
    }

    /// Pad input direction: it waits for the next clock tick once quantizing,
    /// otherwise it takes effect at once.
    pub fn push_reverse(&mut self, reverse: bool)
        ensures
            old(self).quant ==> final(self).view() == (BankView {
                input: Input { buffer: Step { reverse, ..old(self).input.buffer }, ..old(self).input },
                ..old(self).view()
            }),
            !old(self).quant ==> final(self).view() == (BankView {
                input: Input { active: Active { reverse, ..old(self).input.active }, ..old(self).input },
                ..old(self).view()
            }),
    {
        if self.quant {
            self.input.buffer.reverse = reverse;
        } else {
            self.input.active.reverse = reverse;
        }
    }

    /// Sets the length of the recorder's phrase; with none, cuts one from the whole
    /// recording instead. Its player restarts.
    pub fn trim_record(&mut self, len: u16)
        requires
            old(self).inv(),
        ensures
            final(self).inv(),
            final(self).view() == (BankView { record: final(self).view().record, ..old(self).view() }),
            final(self).view().record.queue == old(self).view().record.queue,
            final(self).record.active_phrase is None,
            final(self).record.source_phrase matches Some(p) && match old(self).record.source_phrase {
                Some(q) => p.steps@ == q.steps@ && p.len == len,
                None => p.steps@ == crate::active::saved_steps(old(self).view().record.queue)
                    && p.len == old(self).view().record.queue.len(),
            },
    {
        self.record.trim(len);
    }

    /// Takes the recorder's phrase; with `index`, it is stored in that phrase slot and
    /// the sequence is set to play it alone.
    pub fn take_record(&mut self, index: Option<u8>)
        requires
            old(self).inv(),
            old(self).record.source_phrase is Some ==> (index matches Some(i) ==> i < PAD_COUNT),
        ensures
            final(self).inv(),
            final(self).view().record == (RecordView {
                source_phrase: None,
                active_phrase: None,
                ..old(self).view().record
            }),
            final(self).quant == old(self).quant && final(self).input == old(self).input
                && final(self).kit_index == old(self).kit_index,
            final(self).bank.kits == old(self).bank.kits,
            match (old(self).record.source_phrase, index) {
                (Some(p), Some(i)) => {
                    &&& final(self).bank.phrases@ == old(self).bank.phrases@.update(i as int, Some(p))
                    &&& final(self).view().sequence == (SequenceView {
                        phrase_index: 0,
                        phrases: seq![i],
                        source_phrase: None,
                        active_phrase: old(self).sequence.active_phrase,
                    })
                },
                _ => final(self).bank == old(self).bank && final(self).view().sequence == old(
                    self,
                ).view().sequence,
            },
    {
        match self.record.take() {
            Some(source) => {
                match index {
                    Some(i) => {
                        self.bank.phrases[i as usize] = Some(source);
                        self.sequence.clear();
                        self.sequence.push(i);
                        assert(history_write(Seq::<u8>::empty(), i, PHRASE_COUNT as nat) == seq![i]);
                    },
                    None => {},
                }
            },
            None => {},
        }
    }

    /// Empties the sequence.
    pub fn clear_sequence(&mut self)
        requires
            old(self).inv(),
        ensures
            final(self).inv(),
            final(self).view() == (BankView {
                sequence: SequenceView {
                    phrase_index: 0,
                    phrases: Seq::empty(),
                    source_phrase: None,
                    active_phrase: old(self).sequence.active_phrase,
                },
                ..old(self).view()
            }),
    {
        self.sequence.clear();
    }

    /// Appends phrase slot `index` to the sequence.
    pub fn push_sequence(&mut self, index: u8)
        requires
            old(self).inv(),
        ensures
            final(self).inv(),
            final(self).view() == (BankView {
                sequence: SequenceView {
                    phrases: history_write(old(self).view().sequence.phrases, index, PHRASE_COUNT as nat),
                    ..old(self).view().sequence
                },
                ..old(self).view()
            }),
    {
        self.sequence.push(index);
    }

    /// Pad input is answered at once again.
    pub fn stop(&mut self)
        ensures
            final(self).view() == (BankView { quant: false, ..old(self).view() }),
    {
        self.quant = false;
    }

    /// The direction the bank plays in, as `reverse_of` says.
    pub fn reverse(&self) -> (r: bool)
        ensures
            r == reverse_of(self.input, self.record.active_phrase, self.sequence.active_phrase),
    {
        let other = match &self.record.active_phrase {
            Some(p) => p.active.reverse,
            None => match &self.sequence.active_phrase {
                Some(p) => p.active.reverse,
                None => false,
            },
        };
        self.input.active.reverse ^ other
    }

    /// The first player that is not in time with the clock, as `audible_of` says.
    pub fn audible(&self) -> (r: Option<Player>)
        ensures
            r == audible_of(self.input, self.record.active_phrase, self.sequence.active_phrase),
    {
        if self.input.active.non_sync().is_some() {
            return Some(Player::Input);
        }
        match &self.record.active_phrase {
            Some(p) => if p.active.non_sync().is_some() {
                return Some(Player::Record);
            },
            None => {},
        }
        match &self.sequence.active_phrase {
            Some(p) => if p.active.non_sync().is_some() {
                return Some(Player::Sequence);
            },
            None => {},
        }
        None
    }

    /// The event that `player` is on (`Sync` when it has no phrase).
    pub fn event_of(&self, player: Player) -> (e: Event)
        ensures
            e == match player {
                Player::Input => self.input.active.event,
                Player::Record => match self.record.active_phrase {
                    Some(p) => p.active.event,
                    None => Event::Sync,
                },
                Player::Sequence => match self.sequence.active_phrase {
                    Some(p) => p.active.event,
                    None => Event::Sync,
                },
            },
    {
        match player {
            Player::Input => self.input.active.event,
            Player::Record => match &self.record.active_phrase {
                Some(p) => p.active.event,
                None => Event::Sync,
            },
            Player::Sequence => match &self.sequence.active_phrase {
                Some(p) => p.active.event,
                None => Event::Sync,
            },
        }
    }
}

impl BankHandler {
    /// Whether the bank can take a clock tick, as `can_tick` says.
    pub fn tick_ready(&self) -> (r: bool)
        requires
            self.inv(),
        ensures
            r == self.can_tick(),
    {
        let tps = self.ticks_per_step;
        let input_event_ok = match self.input.buffer.event {
            Some(e) => event_names_pad(&e),
            None => true,
        };
        let record_ok = match &self.record.source_phrase {
            Some(s) => playable(s),
            None => true,
        };
        let record_room = match &self.record.active_phrase {
            Some(p) => p.active.event.has_tick_room(tps),
            None => true,
        };
        let sequence_room = match &self.sequence.active_phrase {
            Some(p) => p.active.event.has_tick_room(tps),
            None => true,
        };
        input_event_ok && self.input.active.event.has_tick_room(tps) && record_ok && record_room
            && bank_phrases_playable(&self.bank) && self.sequence.slots_exist() && sequence_room
    }

    /// One clock tick with the given drifts, as `bank_tick_spec` says.
    pub fn tick_with(&mut self, draws: TickDraws) -> (r: TickResult)
        requires
            old(self).inv(),
            old(self).can_tick(),
        ensures
            final(self).inv(),
            (final(self).view(), r) == bank_tick_spec(old(self).view(), draws),
    {
        self.quant = true;
        let (e1, t1) = self.input.tick_with(self.ticks_per_step, &self.bank, self.kit_index, draws.input_kit);
        let (e2, t2) = self.record.tick_with(
            self.input.active.reverse,
            self.ticks_per_step,
            &self.bank,
            self.kit_index,
            draws.record_step,
            draws.record_kit,
        );
        let (e3, t3) = self.sequence.tick_with(
            self.input.active.reverse,
            self.ticks_per_step,
            &self.bank,
            self.kit_index,
            draws.sequence_phrase,
            draws.sequence_step,
            draws.sequence_kit,
        );
        self.finish_tick(e1, t1, e2, t2, e3, t3)
    }

    /// One clock tick, drawing from `rand` the drifts that the players need.
    pub fn tick<D: Drift>(&mut self, rand: &mut D) -> (r: TickResult)
        requires
            old(self).inv(),
            old(self).can_tick(),
        ensures
            final(self).inv(),
            exists|d: TickDraws| (final(self).view(), r) == bank_tick_spec(old(self).view(), d),
    {
        let ghost v0 = self.view();
        self.quant = true;
        let (e1, t1) = self.input.tick(self.ticks_per_step, &self.bank, self.kit_index, rand);
        let ghost d1 = choose|d: usize|
            (self.input, e1, t1) == input_tick_spec(v0.input, v0.ticks_per_step, v0.bank, v0.kit_index, d as int);
        let (e2, t2) = self.record.tick(
            self.input.active.reverse,
            self.ticks_per_step,
            &self.bank,
            self.kit_index,
            rand,
        );
        let ghost (d2, d3) = choose|ds: usize, dk: usize|
            (self.record.view(), e2, t2) == record_tick_spec(
                v0.record,
                self.input.active.reverse,
                v0.ticks_per_step,
                v0.bank,
                v0.kit_index,
                ds as int,
                dk as int,
            );
        let (e3, t3) = self.sequence.tick(
            self.input.active.reverse,
            self.ticks_per_step,
            &self.bank,
            self.kit_index,
            rand,
        );
        let ghost (d4, d5, d6) = choose|dp: usize, ds: usize, dk: usize|
            (self.sequence.view(), e3, t3) == sequence_tick_spec(
                v0.sequence,
                self.input.active.reverse,
                v0.ticks_per_step,
                v0.bank,
                v0.kit_index,
                dp as int,
                ds as int,
                dk as int,
            );
        let r = self.finish_tick(e1, t1, e2, t2, e3, t3);
        proof {
            let d = TickDraws {
                input_kit: d1,
                record_step: d2,
                record_kit: d3,
                sequence_phrase: d4,
                sequence_step: d5,
                sequence_kit: d6,
            };
            assert((self.view(), r) == bank_tick_spec(v0, d));
            assert(exists|d: TickDraws| (self.view(), r) == bank_tick_spec(v0, d));
        }
        r
    }

    /// Records this step's event and direction and picks the player to bring back in
    /// time when no event began.
    fn finish_tick(
        &mut self,
        e1: Option<passive::Event>,
        t1: Transition,
        e2: Option<passive::Event>,
        t2: Transition,
        e3: Option<passive::Event>,
        t3: Transition,
    ) -> (r: TickResult)
        requires
            old(self).record.inv(),
        ensures
            final(self).record.inv(),
            final(self).view() == ({
                let event = if e1 is Some {
                    e1
                } else if e2 is Some {
                    e2
                } else {
                    e3
                };
                let reverse = reverse_of(old(self).input, old(self).record.active_phrase, old(self).sequence.active_phrase);
                BankView {
                    record: RecordView {
                        queue: history_write(old(self).view().record.queue, Step { event, reverse }, STEP_COUNT as nat),
                        ..old(self).view().record
                    },
                    ..old(self).view()
                }
            }),
            r == ({
                let event = if e1 is Some {
                    e1
                } else if e2 is Some {
                    e2
                } else {
                    e3
                };
                TickResult {
                    input: t1,
                    record: t2,
                    sequence: t3,
                    event,
                    sync: if event is None {
                        audible_of(old(self).input, old(self).record.active_phrase, old(self).sequence.active_phrase)
                    } else {
                        None
                    },
                }
            }),
    {
        let event = if e1.is_some() {
            e1
        } else if e2.is_some() {
            e2
        } else {
            e3
        };
        let reverse = self.reverse();
        self.record.push(Step { event, reverse });
        let sync = if event.is_none() {
            self.audible()
        } else {
            None
        };
        TickResult { input: t1, record: t2, sequence: t3, event, sync }
    }
}

/// Whether the event names an existing pad, as `input_ok` says.
pub fn event_names_pad(e: &passive::Event) -> (r: bool)
    ensures
        r == input_ok(*e),
{
    match *e {
        passive::Event::Sync => true,
        passive::Event::Hold { index } => (index as usize) < PAD_COUNT,
        passive::Event::Loop { index, .. } => (index as usize) < PAD_COUNT,
    }
}

/// Whether the phrase can be played, as `phrase_playable` says.
pub fn playable(p: &passive::Phrase) -> (r: bool)
    ensures
        r == phrase_playable(*p),
{
    if p.len == 0 || p.len as usize > STEP_COUNT {
        return false;
    }
    let mut i: usize = 0;
    while i < STEP_COUNT
        invariant
            i <= STEP_COUNT,
            forall|j: int| 0 <= j < i ==> ((#[trigger] p.steps@[j]).event matches Some(e) ==> input_ok(e)),
        decreases STEP_COUNT - i,
    {
        match p.steps[i].event {
            Some(e) => if !event_names_pad(&e) {
                return false;
            },
            None => {},
        }
        i = i + 1;
    }
    true
}

/// Whether every phrase of the bank can be played, as `bank_playable` says.
pub fn bank_phrases_playable(bank: &Bank) -> (r: bool)
    ensures
        r == bank_playable(*bank),
{
    let mut i: usize = 0;
    while i < PAD_COUNT
        invariant
            i <= PAD_COUNT,
            forall|j: int| 0 <= j < i ==> (#[trigger] bank.phrases@[j] matches Some(p) ==> phrase_playable(p)),
        decreases PAD_COUNT - i,
    {
        match &bank.phrases[i] {
            Some(p) => if !playable(p) {
                return false;
            },
            None => {},
        }
        i = i + 1;
    }
    true
}

impl Sequence {
    /// Whether every sequenced slot exists.
    pub fn slots_exist(&self) -> (r: bool)
        ensures
            r == forall|i: int| 0 <= i < self.view().phrases.len() ==> #[trigger] self.view().phrases[i] < PAD_COUNT,
    {
        let all = crate::history::phrases_oldest_first(&self.phrases);
        let mut i: usize = 0;
        while i < all.len()
            invariant
                all@ == self.view().phrases,
                i <= all@.len(),
                forall|j: int| 0 <= j < i ==> #[trigger] all@[j] < PAD_COUNT,
            decreases all@.len() - i,
        {
            if all[i] as usize >= PAD_COUNT {
                return false;
            }
            i = i + 1;
        }
        true
    }
}

/// The direction a bank plays in is the pad input's, turned round while the phrase
/// player that leads plays backwards: the recorder's player when it plays, else the
/// sequencer's; with neither it is the pad input's own.
pub proof fn lemma_direction(input: Input, record: Option<crate::active::Phrase>, sequence: Option<crate::active::Phrase>)
    ensures
        record matches Some(p) ==> reverse_of(input, record, sequence) == (input.active.reverse != p.active.reverse),
        record is None ==> (sequence matches Some(q) ==> reverse_of(input, record, sequence) == (
        input.active.reverse != q.active.reverse)),
        record is None && sequence is None ==> reverse_of(input, record, sequence) == input.active.reverse,
{
}

} // verus!
