use angry_surgeon::control::{Bank, BankCmd, BankState, Output};
use angry_surgeon::touch::{
    Error, Mpr121Data, Mpr121Interface, TouchHandler, BOOT_CONFIG2, TOUCH_HOLD, TOUCH_KIT, TOUCH_REVERSE,
    TOUCH_SHIFT,
};
use angry_surgeon::Event;

#[test]
fn reset_then_boot_check() {
    let m = Mpr121Interface::new();
    assert_eq!(m.reset(), vec![(0x80, 0x63), (0x5e, 0x00)]);
    assert!(matches!(m.init::<()>(0x00), Err(Error::Boot)));
    let w = m.init::<()>(BOOT_CONFIG2).ok().unwrap();
    assert_eq!(w.len(), 24 + 19);
    assert_eq!(w[0], (0x41, 12));
    assert_eq!(w[1], (0x42, 6));
    assert_eq!(w[22], (0x57, 12));
    assert_eq!(w[23], (0x58, 6));
    assert_eq!(w[24], (0x2b, 0x01));
    assert_eq!(w[37], (0x5d, 0x20));
    assert_eq!(w[42], (0x5e, 0x8c));
}

#[test]
fn touch_status_keeps_twelve_electrodes() {
    let m = Mpr121Interface::new();
    assert_eq!(m.touched([0x34, 0x12]), 0x0234);
    assert_eq!(m.touched([0xff, 0xff]), 0x0fff);
    assert_eq!(m.touched([0x01, 0x00]), 1);
}

#[test]
fn edges_between_readings() {
    let mut d = Mpr121Data::new(0x5a);
    assert_eq!(d.addr, 0x5a);
    assert_eq!(d.last, 0);
    assert_eq!(d.edges(0b1001), vec![(0, true), (3, true)]);
    assert_eq!(d.last, 0b1001);
    assert_eq!(d.edges(0b1001_0000_1000), vec![(0, false), (8, true), (11, true)]);
    // the same reading again: nothing
    assert!(d.edges(0b1001_0000_1000).is_empty());
}

#[test]
fn touch_pads_play_and_release() {
    let mut t = TouchHandler::new();
    let mut out = Vec::new();
    t.touch_down(Bank::A, 4, &mut out);
    assert!(matches!(out[0], Output::Audio(Bank::A, BankCmd::PushEvent(Event::Hold { index: 4 }))));
    assert_eq!(t.bank_a.downs, vec![4]);
    out.clear();
    t.touch_down(Bank::A, 6, &mut out);
    assert!(matches!(out[0], Output::Audio(Bank::A, BankCmd::PushEvent(Event::Loop { index: 4, len: 2 }))));
    out.clear();
    t.touch_up(Bank::A, 4, &mut out);
    assert!(matches!(out[0], Output::Audio(Bank::A, BankCmd::PushEvent(Event::Hold { index: 6 }))));
    out.clear();
    t.touch_up(Bank::A, 6, &mut out);
    assert!(matches!(out[0], Output::Audio(Bank::A, BankCmd::PushEvent(Event::Sync))));
    assert!(t.bank_a.downs.is_empty());
    assert!(t.bank_b.downs.is_empty());
}

#[test]
fn touch_controls() {
    let mut t = TouchHandler::new();
    let mut out = Vec::new();
    t.touch_down(Bank::B, TOUCH_REVERSE, &mut out);
    assert!(matches!(out[..], [Output::Audio(Bank::B, BankCmd::AssignReverse(true))]));
    out.clear();
    t.touch_up(Bank::B, TOUCH_REVERSE, &mut out);
    assert!(matches!(out[..], [Output::Audio(Bank::B, BankCmd::AssignReverse(false))]));
    out.clear();
    t.touch_down(Bank::B, TOUCH_HOLD, &mut out);
    assert!(t.bank_b.hold);
    t.touch_down(Bank::B, TOUCH_KIT, &mut out);
    assert_eq!(t.bank_b.state, BankState::LoadKit);
    t.touch_up(Bank::B, TOUCH_KIT, &mut out);
    assert_eq!(t.bank_b.state, BankState::Mangle);
    out.clear();
    t.touch_down(Bank::B, TOUCH_SHIFT, &mut out);
    assert!(t.bank_b.shift && out.is_empty());
    t.touch_down(Bank::B, TOUCH_KIT, &mut out);
    assert!(matches!(out[..], [Output::Audio(Bank::B, BankCmd::SaveBank)]));
    t.touch_up(Bank::B, TOUCH_SHIFT, &mut out);
    assert!(!t.bank_b.shift);
    out.clear();
    t.touch_down(Bank::B, 12, &mut out);
    assert!(out.is_empty());
}
