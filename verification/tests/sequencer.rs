use angry_surgeon::active::{Drift, DriftKind, Event, Record, Sequence, Transition};
use angry_surgeon::handler::{BankHandler, Player, TickDraws};
use angry_surgeon::pads::{Bank, Kit};
use angry_surgeon::passive::{self, Phrase, Step};
use angry_surgeon::{Onset, Wav};

/// Never drifts.
struct Steady;

impl Drift for Steady {
    fn drift(&mut self, _kind: DriftKind, _count: usize) -> usize {
        0
    }
}

fn onset() -> Onset {
    Onset { wav: Wav { steps: Some(8), path: String::from("x.wav") }, start: 0 }
}

/// A bank whose kit 0 holds an onset on pad 2.
fn bank() -> Bank {
    let mut b = Bank::default();
    let mut k = Kit::default();
    k.onsets[2] = Some(onset());
    b.kits[0] = Some(k);
    b
}

#[test]
fn hold_opens_the_onset() {
    let b = bank();
    let mut e = Event::Sync;
    let t = e.trans_with(&passive::Event::Hold { index: 2 }, &b, 0, 0);
    assert_eq!(t, Transition::Open { kit: 0, pad: 2, replace: false });
    assert_eq!(e, Event::Hold { index: 2, tick: 0 });
    // another pad of the kit without an onset: only a fade, replacing
    let t = e.trans_with(&passive::Event::Hold { index: 3 }, &b, 0, 0);
    assert_eq!(t, Transition::Fade { replace: true });
    assert_eq!(e, Event::Hold { index: 2, tick: 0 });
    // the same pad as a loop keeps the onset under the new event
    let t = e.trans_with(&passive::Event::Loop { index: 2, len: 4 }, &b, 0, 0);
    assert_eq!(t, Transition::Recast);
    assert_eq!(e, Event::Loop { index: 2, tick: 0, len: 4 });
    // a hold from a loop goes back to holding the loop's pad
    let t = e.trans_with(&passive::Event::Hold { index: 5 }, &b, 0, 0);
    assert_eq!(t, Transition::Recast);
    assert_eq!(e, Event::Hold { index: 2, tick: 0 });
    let t = e.trans_with(&passive::Event::Sync, &b, 0, 0);
    assert_eq!(t, Transition::Stop);
    assert_eq!(e, Event::Sync);
    let t = e.trans_with(&passive::Event::Sync, &b, 0, 0);
    assert_eq!(t, Transition::Keep);
}

#[test]
fn empty_bank_keeps_playing() {
    let b = Bank::default();
    let mut e = Event::Sync;
    let t = e.trans(&passive::Event::Hold { index: 2 }, &b, 0, &mut Steady);
    assert_eq!(t, Transition::Keep);
    assert_eq!(e, Event::Sync);
}

#[test]
fn record_cuts_phrase_from_recorded_steps() {
    let mut r = Record::new();
    let a = Step { event: Some(passive::Event::Hold { index: 1 }), reverse: false };
    let b = Step { event: None, reverse: true };
    r.push(a);
    r.push(b);
    r.push(a);
    // with no phrase yet, the whole recording is cut, whatever the length asked
    r.trim(2);
    let p = r.source_phrase.as_ref().unwrap();
    assert_eq!(p.len, 3);
    // the recording sits in the last places, the ones a phrase of its length plays
    assert_eq!(p.steps[125], a);
    assert_eq!(p.steps[126], b);
    assert_eq!(p.steps[127], a);
    assert_eq!(p.steps[124], Step::default());
    assert_eq!(p.generate_step(0, 0), a);
    assert_eq!(p.generate_step(1, 0), b);
    assert_eq!(p.generate_step(2, 0), a);
    assert_eq!(p.generate_step(3, 0), a);
    // trimming again sets the length and keeps the cut steps: the last two play
    r.push(b);
    r.trim(2);
    let p = r.source_phrase.as_ref().unwrap();
    assert_eq!(p.len, 2);
    assert_eq!(p.steps[125], a);
    assert_eq!(p.generate_step(0, 0), b);
    assert_eq!(p.generate_step(1, 0), a);
    let taken = r.take().unwrap();
    assert_eq!(taken.len, 2);
    assert!(r.source_phrase.is_none() && r.active_phrase.is_none());
    assert!(r.take().is_none());
}

#[test]
fn sequence_moves_through_live_phrases() {
    let mut b = Bank::default();
    b.phrases[1] = Some(Phrase { steps: [Step::default(); 128], len: 4 });
    b.phrases[3] = Some(Phrase { steps: [Step::default(); 128], len: 4 });
    let mut s = Sequence::new();
    assert_eq!(s.try_increment_phrase(&b, 0), None);
    s.push(1);
    s.push(2);
    s.push(3);
    // live phrases [1, 3]; the position moves from 0 to 1
    assert_eq!(s.try_increment_phrase(&b, 0), Some(3));
    assert_eq!(s.try_increment_phrase(&b, 0), Some(1));
    assert_eq!(s.try_increment_phrase(&b, 1), Some(1));
    s.clear();
    assert_eq!(s.try_increment_phrase(&b, 0), None);
}

#[test]
fn quantized_input_waits_for_the_clock() {
    let mut h = BankHandler::new(6);
    h.bank = bank();
    let t = h.push_event(passive::Event::Hold { index: 2 }, &mut Steady);
    assert_eq!(t, Transition::Open { kit: 0, pad: 2, replace: false });
    let r = h.tick(&mut Steady);
    assert!(h.quant);
    assert_eq!(r.input, Transition::Keep);
    assert_eq!(r.event, None);
    assert_eq!(r.sync, Some(Player::Input));
    let t = h.push_event(passive::Event::Sync, &mut Steady);
    assert_eq!(t, Transition::Keep);
    let r = h.tick_with(TickDraws {
        input_kit: 0,
        record_step: 0,
        record_kit: 0,
        sequence_phrase: 0,
        sequence_step: 0,
        sequence_kit: 0,
    });
    assert_eq!(r.input, Transition::Stop);
    assert_eq!(r.event, Some(passive::Event::Sync));
    h.stop();
    assert!(!h.quant);
}

#[test]
fn recorded_take_goes_to_its_slot() {
    let mut h = BankHandler::new(6);
    h.bank = bank();
    h.push_event(passive::Event::Hold { index: 2 }, &mut Steady);
    h.tick(&mut Steady);
    h.trim_record(1);
    h.take_record(Some(4));
    assert!(h.bank.phrases[4].is_some());
    assert_eq!(h.bank.phrases[4].as_ref().unwrap().len, 1);
    assert!(h.record.source_phrase.is_none());
    h.push_sequence(4);
    h.clear_sequence();
    assert!(h.sequence.source_phrase.is_none());
}

#[test]
fn onset_assigned_to_current_kit() {
    let mut h = BankHandler::new(6);
    h.kit_index = 3;
    h.assign_onset(5, onset());
    assert!(h.bank.kits[3].as_ref().unwrap().onsets[5].is_some());
    assert!(h.bank.kits[3].as_ref().unwrap().onsets[4].is_none());
    h.push_reverse(true);
    assert!(h.input.active.reverse);
    assert!(h.reverse());
}

#[test]
fn full_recording_replays_its_last_steps() {
    let mut r = Record::new();
    for k in 0..130u16 {
        r.push(Step { event: Some(passive::Event::Loop { index: 0, len: k }), reverse: false });
    }
    r.trim(128);
    r.trim(4);
    let p = r.source_phrase.clone().unwrap();
    assert_eq!(p.generate_step(0, 0).event, Some(passive::Event::Loop { index: 0, len: 126 }));
    assert_eq!(p.generate_step(3, 0).event, Some(passive::Event::Loop { index: 0, len: 129 }));
    assert_eq!(p.generate_step(4, 0).event, Some(passive::Event::Loop { index: 0, len: 126 }));
}

#[test]
fn recorder_ticks_loop_through_the_cut_phrase() {
    let mut r = Record::new();
    let a = Step { event: Some(passive::Event::Hold { index: 2 }), reverse: false };
    let b = Step { event: None, reverse: true };
    let c = Step { event: Some(passive::Event::Sync), reverse: false };
    r.push(a);
    r.push(b);
    r.push(c);
    r.trim(3);
    let bank = Bank::default();
    let expected = [a, b, c];
    for n in 0..7usize {
        let (e, _) = r.tick(false, 4, &bank, 0, &mut Steady);
        let step = expected[n % 3];
        assert_eq!(e, step.event);
        let player = r.active_phrase.unwrap();
        assert_eq!(player.step_index as usize, n % 3);
        assert_eq!(player.active.reverse, step.reverse);
    }
    // without a phrase a tick begins nothing
    let mut empty = Record::new();
    assert_eq!(empty.tick(false, 4, &bank, 0, &mut Steady).0, None);
    assert!(empty.active_phrase.is_none());
}
