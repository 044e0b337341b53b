use angry_surgeon::browse::{
    clock_pulse, decrement, increment, listing, next_oneshot, ClockIn, Oneshots, Source, FILE_COUNT,
};
use angry_surgeon::control::{Bank as Side, Control};
use angry_surgeon::knob::{channel_of, pot_control, Channel, Knob, Pots, Preshift};
use angry_surgeon::pads::{Bank, Kit};

#[test]
fn knob_first_reading_sets() {
    let mut k = Knob::new();
    assert_eq!(k.preshift, Preshift::Idle);
    assert!(k.maybe_set(40, false));
    assert_eq!(k.values, [Some(40), None]);
    assert!(!k.maybe_set(40, false));
    assert!(k.maybe_set(41, false));
    assert!(k.maybe_set(7, true));
    assert_eq!(k.values, [Some(41), Some(7)]);
}

#[test]
fn primed_knob_waits_to_catch_up_from_above() {
    let mut k = Knob::new();
    k.maybe_set(50, false);
    k.preshift = Preshift::Primed;
    assert!(!k.maybe_set(90, false));
    assert_eq!(k.preshift, Preshift::FromMore);
    assert!(!k.maybe_set(70, false));
    assert!(k.maybe_set(51, false));
    assert_eq!(k.preshift, Preshift::Idle);
    assert_eq!(k.values[0], Some(51));
}

#[test]
fn primed_knob_within_jitter_is_idle() {
    let mut k = Knob::new();
    k.maybe_set(50, false);
    k.preshift = Preshift::Primed;
    assert!(!k.maybe_set(51, false));
    assert_eq!(k.preshift, Preshift::Idle);
    assert_eq!(k.values[0], Some(50));
}

#[test]
fn pots_take_over_after_shift() {
    let mut p = Pots::default();
    assert!(p.maybe_set(0, 300));
    assert_eq!(p.last(0), 300);
    assert!(!p.maybe_set(0, 300));
    p.shift(true);
    assert!(p.shift);
    assert_eq!(p.last[0].preshift, Preshift::Primed);
    // shifted side last at 0: a higher reading waits to come down to it
    assert!(!p.maybe_set(0, 500));
    assert_eq!(p.last[0].preshift, Preshift::FromMore);
    assert!(!p.maybe_set(0, 10));
    assert!(p.maybe_set(0, 0));
    assert_eq!(p.last(0), 0);
    p.shift(false);
    assert_eq!(p.last(0), 300);
    assert!(!p.maybe_set(0, 100));
    assert_eq!(p.last[0].preshift, Preshift::FromLess);
    assert!(p.maybe_set(0, 301));
    assert_eq!(p.last(0), 301);
}

#[test]
fn listing_positions_wrap() {
    assert_eq!(increment(0, 3), 1);
    assert_eq!(increment(2, 3), 0);
    assert_eq!(decrement(0, 3), 2);
    assert_eq!(decrement(1, 3), 0);
    assert_eq!(decrement(increment(4, 5), 5), 4);
    assert_eq!(FILE_COUNT, 5);
    assert_eq!(listing(0, 10), [8, 9, 0, 1, 2]);
    assert_eq!(listing(5, 10), [3, 4, 5, 6, 7]);
    assert_eq!(listing(0, 1), [0, 0, 0, 0, 0]);
    assert_eq!(listing(1, 3), [2, 0, 1, 2, 0]);
}

#[test]
fn oneshots_cycle_through_then_stop() {
    assert_eq!(next_oneshot(None, 2), Some(0));
    assert_eq!(next_oneshot(Some(0), 2), Some(1));
    assert_eq!(next_oneshot(Some(1), 2), None);
    assert_eq!(next_oneshot(Some(1), 0), Some(1));
    let mut o = Oneshots::new();
    assert!(!o.next());
    assert_eq!(o.index, None);
    o.open(2);
    assert!(o.next());
    assert_eq!(o.index, Some(0));
    o.next();
    assert_eq!(o.index, Some(1));
    o.next();
    assert_eq!(o.index, None);
    o.next();
    assert_eq!(o.index, Some(0));
    o.open(3);
    assert_eq!(o.index, None);
}

#[test]
fn clock_pulses_make_steps() {
    assert_eq!(clock_pulse(0), (true, 1));
    assert_eq!(clock_pulse(1), (false, 2));
    assert_eq!(clock_pulse(5), (false, 0));
}

#[test]
fn external_clock_sets_the_beat() {
    let mut c = ClockIn::new();
    assert_eq!(c.source, Source::Internal);
    assert_eq!(c.pulse(1_000), None);
    assert_eq!(c.last, Some(1_000));
    // a bounce
    assert_eq!(c.pulse(2_000), None);
    assert_eq!(c.source, Source::Internal);
    assert_eq!(c.pulse(21_000), Some(20_000 * 24));
    assert_eq!(c.source, Source::External);
    assert_eq!(c.last, Some(21_000));
}

fn bank_with_kits(slots: &[usize]) -> Bank {
    let mut b = Bank::default();
    for &s in slots {
        b.kits[s] = Some(Kit::default());
    }
    b
}

#[test]
fn kit_choice_without_drift_is_the_next_kit() {
    let b = bank_with_kits(&[2, 5]);
    assert_eq!(b.generate_kit_index(0, 0), Some(2));
    assert_eq!(b.generate_kit_index(2, 0), Some(2));
    assert_eq!(b.generate_kit_index(3, 0), Some(5));
    assert_eq!(b.generate_kit_index(6, 0), Some(2));
    assert!(b.generate_kit(3, 0).is_some());
}

#[test]
fn kit_choice_drifts_cyclically() {
    let b = bank_with_kits(&[1, 4, 6]);
    assert_eq!(b.generate_kit_index(0, 1), Some(4));
    assert_eq!(b.generate_kit_index(0, 2), Some(6));
    assert_eq!(b.generate_kit_index(0, 3), Some(1));
    assert_eq!(b.generate_kit_index(5, 1), Some(1));
}

#[test]
fn empty_bank_has_no_kit() {
    let b = Bank::default();
    assert_eq!(b.generate_kit_index(3, 7), None);
    assert!(b.generate_kit(3, 7).is_none());
}

#[test]
fn adc_channels_in_sequence_order() {
    assert_eq!(channel_of(0), Some(Channel::Tempo));
    assert_eq!(channel_of(1), Some(Channel::Pot(Side::A, 0)));
    assert_eq!(channel_of(5), Some(Channel::Thumb(Side::A, 1)));
    assert_eq!(channel_of(8), Some(Channel::Pot(Side::B, 2)));
    assert_eq!(channel_of(9), Some(Channel::Thumb(Side::B, 0)));
    assert_eq!(channel_of(11), None);
    assert_eq!(pot_control(0), Control::Gain);
    assert_eq!(pot_control(2), Control::Drift);
}
