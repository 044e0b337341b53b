use angry_surgeon::control;
use angry_surgeon::pads;
use angry_surgeon::passive::{Phrase, Step};
use angry_surgeon::tui::{self, BankCmd, BankHandler, BankState, Cmd, Text, TuiHandler, TuiState};
use angry_surgeon::{Onset, Wav};

fn onset(start: u64) -> Onset {
    Onset { wav: Wav { steps: None, path: String::from("a.wav") }, start }
}

#[test]
fn from_audio_shows_kits_with_onsets_and_phrases() {
    let mut bank = pads::Bank::default();
    let mut kit = pads::Kit::default();
    kit.onsets[2] = Some(onset(5));
    bank.kits[1] = Some(kit);
    // a kit without onsets is not shown
    bank.kits[3] = Some(pads::Kit::default());
    bank.phrases[4] = Some(Phrase { steps: [Step::default(); 128], len: 1 });
    let shown = tui::Bank::from_audio(&bank);
    assert!(shown.kits[0].is_none());
    let k = shown.kits[1].unwrap();
    assert_eq!(k.onsets, [false, false, true, false, false, false, false, false]);
    assert!(shown.kits[3].is_none());
    assert_eq!(shown.phrases, [false, false, false, false, true, false, false, false]);
}

#[test]
fn display_bank_pads_and_glyphs() {
    let mut h = BankHandler::new();
    h.pad(3, true);
    h.pad(1, true);
    assert_eq!(&h.held_glyphs(None), b" . @    ");
    h.pad(3, false);
    assert_eq!(&h.held_glyphs(None), b" @      ");
    assert_eq!(&h.held_glyphs(Some(Some(5))), b" .   @  ");
    h.pad(1, false);
    assert_eq!(&h.held_glyphs(None), b"        ");
}

#[test]
fn display_kit_pool_and_bank_glyphs() {
    let mut h = BankHandler::new();
    let mut b = tui::Bank::default();
    b.kits[0] = Some(tui::Kit { onsets: [true, false, false, false, false, false, false, true] });
    b.phrases[2] = true;
    h.cmd(BankCmd::LoadBank(b));
    assert_eq!(&h.kit_glyphs(Some(7)), b"k k    @");
    assert_eq!(&h.pool_glyphs(None), b"  p     ");
    assert_eq!(&h.bank_glyphs(), b"k       ");
    assert_eq!(&h.onset_glyphs(), b"o      o");
    h.cmd(BankCmd::PushPool(Some(2)));
    h.cmd(BankCmd::PushPool(Some(3)));
    assert_eq!(h.pool(), vec![2]);
    assert_eq!(h.state, BankState::PushPool { index: Some(3) });
    h.cmd(BankCmd::Pad(6, true));
    assert_eq!(h.pool(), vec![2, 6]);
    h.cmd(BankCmd::ClearPool);
    assert!(h.pool().is_empty());
}

#[test]
fn cut_phrase_shows_after_mangle() {
    let mut h = BankHandler::new();
    h.cmd(BankCmd::BakeRecord(Some(5), 16));
    assert_eq!(h.state, BankState::BakeRecord { index: Some(5), len: 16 });
    h.cmd(BankCmd::Mangle);
    assert!(h.bank.phrases[5]);
    assert_eq!(h.state, BankState::Mangle);
    h.cmd(BankCmd::LoadKit(Some(4)));
    assert_eq!(h.kit_index, 4);
    h.cmd(BankCmd::LoadKit(None));
    assert_eq!(h.kit_index, 4);
}

#[test]
fn display_commands() {
    let mut t = TuiHandler::new();
    t.cmd(Cmd::Clock);
    assert!(t.clock);
    t.cmd(Cmd::Clock);
    assert!(!t.clock);
    t.cmd(Cmd::Clock);
    t.cmd(Cmd::Stop);
    assert!(!t.clock);
    t.cmd(Cmd::Bank(control::Bank::A, BankCmd::LoadKit(Some(2))));
    t.cmd(Cmd::LoadOnset { index: 0, count: 4 });
    assert_eq!(t.state, TuiState::LoadOnset { index: 0, count: 4 });
    // a pad pressed while choosing onsets shows the onset in the current kit
    t.cmd(Cmd::Bank(control::Bank::A, BankCmd::Pad(6, true)));
    assert!(t.bank_a.bank.kits[2].unwrap().onsets[6]);
    assert!(t.bank_b.bank.kits[2].is_none());
    t.cmd(Cmd::Yield);
    assert_eq!(t.state, TuiState::Yield);
    assert_eq!(t.bank_a.state, BankState::Mangle);
    // outside onset choosing, a press does not add onsets
    t.cmd(Cmd::Bank(control::Bank::A, BankCmd::Pad(1, true)));
    assert!(!t.bank_a.bank.kits[2].unwrap().onsets[1]);
    assert!(t.toggle_deafen());
    assert!(!t.toggle_deafen());
}

#[test]
fn text_lines() {
    let t = Text::base(*b"kit   ");
    assert_eq!(&t.string, b"kit   ");
    assert!(!t.invert);
    let t = Text::invert(*b"ab");
    assert!(t.invert);
}
