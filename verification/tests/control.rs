use angry_surgeon::control::{
    Bank, BankCmd, BankState, GlobalState, InputHandler, OpenAction, Output, Param, CTRL_DRIFT_A, CTRL_GAIN_A,
    CTRL_GAIN_ONESHOT, CTRL_SPEED_B, KEY_BANK_A_START, KEY_BANK_B_START, KEY_HOLD_A, KEY_KIT_A, KEY_KIT_B,
    KEY_OPEN, KEY_REVERSE_A, KEY_REVERSE_B, KEY_SHIFT_A,
};
use angry_surgeon::midi::MidiError;
use angry_surgeon::tui;
use angry_surgeon::{Event, Rd};

fn on(h: &mut InputHandler, key: u8) -> Vec<Output> {
    let mut out = Vec::new();
    h.note_on(key, &mut out);
    out
}

fn off(h: &mut InputHandler, key: u8) -> Vec<Output> {
    let mut out = Vec::new();
    h.note_off(key, &mut out);
    out
}

fn is_push(o: &Output, bank: Bank, e: Event) -> bool {
    matches!(o, Output::Audio(b, BankCmd::PushEvent(x)) if *b == bank && *x == e)
}

fn is_display_pad(o: &Output, bank: Bank, index: u8, down: bool) -> bool {
    matches!(o, Output::Display(b, tui::BankCmd::Pad(i, d)) if *b == bank && *i == index && *d == down)
}

#[test]
fn pad_press_jumps_to_its_onset() {
    let mut h = InputHandler::new();
    let out = on(&mut h, KEY_BANK_B_START + 3);
    assert_eq!(out.len(), 2);
    assert!(is_push(&out[0], Bank::B, Event::Hold { index: 3 }));
    assert!(is_display_pad(&out[1], Bank::B, 3, true));
    assert_eq!(h.bank_b.downs, vec![3]);
}

#[test]
fn bank_a_pads_run_downwards() {
    let mut h = InputHandler::new();
    // the last note of bank A's range is its first pad
    let out = on(&mut h, KEY_BANK_A_START + 7);
    assert!(is_push(&out[0], Bank::A, Event::Hold { index: 0 }));
    let out = on(&mut h, KEY_BANK_A_START);
    assert!(is_push(&out[0], Bank::A, Event::Loop { index: 0, len: 1 << 6 }));
}

#[test]
fn two_pads_loop_with_encoded_length() {
    let mut h = InputHandler::new();
    on(&mut h, KEY_BANK_B_START + 5);
    let out = on(&mut h, KEY_BANK_B_START + 1);
    // pad 1 after pad 5: 1 + 8 - 1 - 5 = 3 pads between, wrapping
    assert!(is_push(&out[0], Bank::B, Event::Loop { index: 5, len: 1 << 3 }));
    assert_eq!(h.bank_b.binary_offset(5), 8);
    let out = on(&mut h, KEY_BANK_B_START + 7);
    assert!(is_push(&out[0], Bank::B, Event::Loop { index: 5, len: (1 << 3) | (1 << 1) }));
}

#[test]
fn releasing_all_pads_syncs() {
    let mut h = InputHandler::new();
    on(&mut h, KEY_BANK_B_START + 2);
    let out = off(&mut h, KEY_BANK_B_START + 2);
    assert_eq!(out.len(), 2);
    assert!(is_push(&out[0], Bank::B, Event::Sync));
    assert!(is_display_pad(&out[1], Bank::B, 2, false));
    assert!(h.bank_b.downs.is_empty());
}

#[test]
fn releasing_one_of_two_pads_jumps_to_the_other() {
    let mut h = InputHandler::new();
    on(&mut h, KEY_BANK_B_START + 2);
    on(&mut h, KEY_BANK_B_START + 4);
    let out = off(&mut h, KEY_BANK_B_START + 2);
    assert!(is_push(&out[0], Bank::B, Event::Hold { index: 4 }));
    assert_eq!(h.bank_b.downs, vec![4]);
}

#[test]
fn reverse_round_trip() {
    let mut h = InputHandler::new();
    let out = on(&mut h, KEY_REVERSE_A);
    assert!(matches!(out[..], [Output::Audio(Bank::A, BankCmd::AssignReverse(true))]));
    assert!(h.bank_a.reverse);
    let out = off(&mut h, KEY_REVERSE_A);
    assert!(matches!(out[..], [Output::Audio(Bank::A, BankCmd::AssignReverse(false))]));
    assert!(!h.bank_a.reverse);
}

#[test]
fn hold_twice_gives_back_hold_and_syncs() {
    let mut h = InputHandler::new();
    let out = on(&mut h, KEY_HOLD_A);
    assert!(out.is_empty());
    assert!(h.bank_a.hold);
    off(&mut h, KEY_HOLD_A);
    let out = on(&mut h, KEY_HOLD_A);
    assert!(!h.bank_a.hold);
    assert_eq!(out.len(), 1);
    assert!(is_push(&out[0], Bank::A, Event::Sync));
}

#[test]
fn held_pads_keep_playing_on_release_under_hold() {
    let mut h = InputHandler::new();
    on(&mut h, KEY_HOLD_A);
    on(&mut h, KEY_BANK_A_START + 7);
    let out = off(&mut h, KEY_BANK_A_START + 7);
    assert_eq!(out.len(), 1);
    assert!(is_display_pad(&out[0], Bank::A, 0, false));
}

#[test]
fn kit_round_trip() {
    let mut h = InputHandler::new();
    let out = on(&mut h, KEY_KIT_A);
    assert!(matches!(out[..], [Output::Display(Bank::A, tui::BankCmd::LoadKit(None))]));
    assert_eq!(h.bank_a.state, BankState::LoadKit);
    let out = on(&mut h, KEY_BANK_A_START + 5);
    assert!(matches!(out[0], Output::Audio(Bank::A, BankCmd::LoadKit(2))));
    assert!(matches!(out[1], Output::Display(Bank::A, tui::BankCmd::LoadKit(Some(2)))));
    let out = off(&mut h, KEY_KIT_A);
    assert!(matches!(out[..], [Output::Display(Bank::A, tui::BankCmd::Mangle)]));
    assert_eq!(h.bank_a.state, BankState::Mangle);
}

#[test]
fn shift_kit_saves_the_bank() {
    let mut h = InputHandler::new();
    on(&mut h, KEY_SHIFT_A);
    let out = on(&mut h, KEY_KIT_A);
    assert!(matches!(out[..], [Output::Audio(Bank::A, BankCmd::SaveBank)]));
    assert_eq!(h.bank_a.state, BankState::Mangle);
}

#[test]
fn bake_round_trip_stores_in_first_held_pad() {
    let mut h = InputHandler::new();
    on(&mut h, KEY_SHIFT_A);
    let out = on(&mut h, KEY_REVERSE_A);
    // no pad held: sync first, then the longest cut
    assert_eq!(out.len(), 3);
    assert!(is_push(&out[0], Bank::A, Event::Sync));
    assert!(matches!(out[1], Output::Audio(Bank::A, BankCmd::BakeRecord(128))));
    assert!(matches!(out[2], Output::Display(Bank::A, tui::BankCmd::BakeRecord(None, 128))));
    let out = on(&mut h, KEY_BANK_A_START + 6);
    assert!(matches!(out[0], Output::Audio(Bank::A, BankCmd::BakeRecord(128))));
    assert!(matches!(out[1], Output::Display(Bank::A, tui::BankCmd::BakeRecord(Some(1), 128))));
    let out = off(&mut h, KEY_REVERSE_A);
    assert!(matches!(out[0], Output::Audio(Bank::A, BankCmd::TakeRecord(Some(1)))));
    assert!(matches!(out[1], Output::Display(Bank::A, tui::BankCmd::Mangle)));
    assert_eq!(h.bank_a.state, BankState::Mangle);
}

#[test]
fn controls_set_parameters_once_heard() {
    let mut h = InputHandler::new();
    let mut out = Vec::new();
    h.controller(CTRL_GAIN_A, 64, &mut out);
    assert!(matches!(out[..], [Output::Param(Bank::A, Param::Gain, 64)]));
    out.clear();
    h.controller(CTRL_GAIN_A, 64, &mut out);
    assert!(out.is_empty());
    h.controller(CTRL_SPEED_B, 10, &mut out);
    assert!(matches!(out[..], [Output::Param(Bank::B, Param::Speed, 10)]));
    out.clear();
    h.controller(CTRL_GAIN_ONESHOT, 5, &mut out);
    assert!(matches!(out[..], [Output::OneshotGain(5)]));
    out.clear();
    h.controller(1, 5, &mut out);
    assert!(out.is_empty());
}

#[test]
fn drift_control_takes_over_through_the_speed_knob() {
    let mut h = InputHandler::new();
    let mut out = Vec::new();
    h.controller(CTRL_DRIFT_A, 30, &mut out);
    assert!(matches!(out[..], [Output::Param(Bank::A, Param::KitDrift, 30)]));
    assert_eq!(h.bank_a.speed.values[0], Some(30));
    assert_eq!(h.bank_a.drift.values[0], None);
}

#[test]
fn shift_primes_controls_for_takeover() {
    let mut h = InputHandler::new();
    let mut out = Vec::new();
    h.controller(CTRL_GAIN_A, 64, &mut out);
    on(&mut h, KEY_SHIFT_A);
    out.clear();
    // the shifted side is heard for the first time
    h.controller(CTRL_GAIN_A, 20, &mut out);
    assert!(matches!(out[..], [Output::Param(Bank::A, Param::Width, 20)]));
    off(&mut h, KEY_SHIFT_A);
    out.clear();
    // back on the base side, far from 64: primed, then taken over from below
    h.controller(CTRL_GAIN_A, 10, &mut out);
    assert!(out.is_empty());
    h.controller(CTRL_GAIN_A, 40, &mut out);
    assert!(out.is_empty());
    h.controller(CTRL_GAIN_A, 63, &mut out);
    assert!(matches!(out[..], [Output::Param(Bank::A, Param::Gain, 63)]));
}

#[test]
fn clock_steps_every_six_pulses() {
    let mut h = InputHandler::new();
    let mut steps = 0;
    for _ in 0..12 {
        let mut out = Vec::new();
        h.timing_clock(&mut out);
        steps += out.iter().filter(|o| matches!(o, Output::Clock)).count();
    }
    assert_eq!(steps, 2);
    let mut out = Vec::new();
    h.timing_clock(&mut out);
    assert!(matches!(out[..], [Output::Clock]));
    assert_eq!(h.clock, 1);
}

#[test]
fn stop_resets_the_clock_and_sequences() {
    let mut h = InputHandler::new();
    let mut out = Vec::new();
    h.timing_clock(&mut out);
    out.clear();
    h.stop(&mut out);
    assert_eq!(h.clock, 0);
    assert!(matches!(
        out[..],
        [
            Output::Stop,
            Output::Audio(Bank::A, BankCmd::ClearPool),
            Output::Audio(Bank::B, BankCmd::ClearPool),
            Output::DisplayStop
        ]
    ));
}

#[test]
fn raw_midi_messages() {
    let mut h = InputHandler::new();
    let mut out = Vec::new();
    assert_eq!(h.push_midi(&[0x90, KEY_BANK_B_START, 100], &mut out), Ok(()));
    assert!(is_push(&out[0], Bank::B, Event::Hold { index: 0 }));
    out.clear();
    assert_eq!(h.push_midi(&[0x80, KEY_BANK_B_START, 0], &mut out), Ok(()));
    assert!(is_push(&out[0], Bank::B, Event::Sync));
    out.clear();
    assert_eq!(h.push_midi(&[0xF8], &mut out), Ok(()));
    assert!(matches!(out[..], [Output::Clock]));
    out.clear();
    assert_eq!(h.push_midi(&[0xFC], &mut out), Ok(()));
    assert!(matches!(out[0], Output::Stop));
    out.clear();
    assert_eq!(h.push_midi(&[0xE0, 0x00, 0x40], &mut out), Ok(()));
    assert!(matches!(out[..], [Output::Bend(8192)]));
    out.clear();
    assert_eq!(h.push_midi(&[0xB0, CTRL_GAIN_ONESHOT, 7], &mut out), Ok(()));
    assert!(matches!(out[..], [Output::OneshotGain(7)]));
    out.clear();
    assert_eq!(h.push_midi(&[], &mut out), Err(MidiError::Invalid));
    assert!(out.is_empty());
    assert_eq!(h.push_midi(&[0x90, 60], &mut out), Err(MidiError::Invalid));
    assert!(out.is_empty());
}

#[test]
fn other_midi_messages_are_taken_and_ignored() {
    let mut h = InputHandler::new();
    let mut out = vec![Output::Clock];
    // aftertouch, program change, channel aftertouch, a realtime start, and a
    // pitch bend whose data bytes are read low then high
    assert_eq!(h.push_midi(&[0xA3, 60, 10], &mut out), Ok(()));
    assert_eq!(h.push_midi(&[0xC0, 5], &mut out), Ok(()));
    assert_eq!(h.push_midi(&[0xD1, 9], &mut out), Ok(()));
    assert_eq!(h.push_midi(&[0xFA], &mut out), Ok(()));
    assert!(matches!(out[..], [Output::Clock]));
    assert_eq!(h.push_midi(&[0xE2, 0x01, 0x02], &mut out), Ok(()));
    assert!(matches!(out[..], [Output::Clock, Output::Bend(257)]));
    // a data byte of 0x80 or more ends the data: too few are left
    assert_eq!(h.push_midi(&[0xB0, 0x90, 1], &mut out), Err(MidiError::Invalid));
    assert_eq!(out.len(), 2);
}

#[test]
fn deafened_controls_hear_nothing() {
    let mut h = InputHandler::new();
    h.deafen = true;
    let mut out = Vec::new();
    assert_eq!(h.push_midi(&[0x90, KEY_BANK_B_START, 100], &mut out), Ok(()));
    assert!(out.is_empty());
    assert!(h.bank_b.downs.is_empty());
    assert_eq!(h.push_midi(&[], &mut out), Ok(()));
}

#[test]
fn browsing_samples_and_onsets() {
    let mut h = InputHandler::new();
    assert_eq!(h.open(), OpenAction::OpenSamples);
    h.list_samples(3, false);
    assert!(matches!(h.state, GlobalState::LoadRd));
    let out = on(&mut h, KEY_KIT_B);
    assert!(matches!(out[..], [Output::ShowSamples]));
    assert_eq!(h.rd_cx.unwrap().file_index, 1);
    on(&mut h, KEY_REVERSE_B);
    on(&mut h, KEY_REVERSE_B);
    assert_eq!(h.rd_cx.unwrap().file_index, 2);
    assert_eq!(h.open(), OpenAction::OpenSampleEntry { file_index: 2 });
    h.choose_onsets(Rd { steps: Some(16), onsets: vec![10, 20, 30] });
    let out = on(&mut h, KEY_KIT_B);
    assert!(matches!(out[..], [Output::ShowOnset { index: 1, count: 3 }]));
    let out = on(&mut h, KEY_BANK_B_START + 2);
    assert!(matches!(
        out[0],
        Output::AssignOnset { bank: Bank::B, index: 2, start: 20, steps: Some(16) }
    ));
    let out = off(&mut h, KEY_BANK_B_START + 2);
    assert!(matches!(out[0], Output::Audio(Bank::B, BankCmd::ForceEvent(Event::Sync))));
    assert_eq!(h.open(), OpenAction::ShowSamples);
    assert!(matches!(h.state, GlobalState::LoadRd));
    // a pad press hands the controls back to the banks
    let out = on(&mut h, KEY_BANK_B_START);
    assert!(matches!(h.state, GlobalState::Yield));
    assert!(out.iter().any(|o| matches!(o, Output::Yield)));
    assert_eq!(h.open(), OpenAction::RecallSamples);
}

#[test]
fn focused_bank_browses_bank_files() {
    let mut h = InputHandler::new();
    on(&mut h, KEY_SHIFT_A);
    assert_eq!(h.open(), OpenAction::OpenBanks { bank: Bank::A });
    assert_eq!(h.banks_maybe_focus, None);
    h.list_banks(Bank::A, 2, false);
    on(&mut h, KEY_KIT_B);
    assert_eq!(h.open(), OpenAction::OpenBankEntry { bank: Bank::A, file_index: 1 });
    off(&mut h, KEY_SHIFT_A);
    let out = on(&mut h, KEY_BANK_A_START);
    assert!(matches!(h.state, GlobalState::Yield));
    assert!(out.iter().any(|o| matches!(o, Output::Yield)));
    on(&mut h, 51);
    assert_eq!(h.open(), OpenAction::RecallBanks { bank: Bank::A });
}

#[test]
fn moving_an_empty_listing_is_refused() {
    let mut h = InputHandler::new();
    h.open();
    h.list_samples(0, false);
    let mut out = Vec::new();
    assert_eq!(h.try_push_midi(&[0x90, KEY_KIT_B, 1], &mut out), None);
    assert!(out.is_empty());
    assert_eq!(h.try_push_midi(&[0x90, KEY_OPEN, 1], &mut out), Some(Ok(())));
    assert!(matches!(out[..], [Output::Open]));
}
