//! The capacitive touch pads of a bank (an MPR121 on an I2C bus): bringing the chip
//! up, reading which electrodes are touched, the touches and releases since the last
//! reading, and what each does to the bank.
use vstd::prelude::*;

use crate::control::{self, gesture_spec, BankCmd, BankHandler, Gesture, Output};
use crate::history::without;
use crate::PAD_COUNT;

verus! {

/// Electrode of the shift pad; electrodes 0 to 7 are the bank's pads.
pub const TOUCH_SHIFT: u8 = 8;
pub const TOUCH_REVERSE: u8 = 9;
pub const TOUCH_HOLD: u8 = 10;
pub const TOUCH_KIT: u8 = 11;

/// Electrodes the chip senses.
pub const ELECTRODE_COUNT: u16 = 12;

/// Registers of the chip.
pub const REG_TOUCHSTATUS_L: u8 = 0x00;
pub const REG_CONFIG2: u8 = 0x5d;
pub const REG_ECR: u8 = 0x5e;
pub const REG_SOFTRESET: u8 = 0x80;
/// the touch threshold of electrode `i` is at `REG_TOUCHTH_0 + 2 * i`, its release
/// threshold right after
pub const REG_TOUCHTH_0: u8 = 0x41;

/// What CONFIG2 reads after a reset.
pub const BOOT_CONFIG2: u8 = 0x24;
pub const TOUCH_THRESH: u8 = 12;
pub const RELEASE_THRESH: u8 = 6;

/// Why the chip could not be brought up.
#[derive(Debug)]
pub enum Error<E> {
    /// CONFIG2 did not read as after a reset
    Boot,
    /// the bus failed
    I2c(E),
}

/// The register writes that reset and stop the chip.
pub open spec fn reset_writes() -> Seq<(u8, u8)> {
    seq![(REG_SOFTRESET, 0x63u8), (REG_ECR, 0x00u8)]
}

/// Write `k` of the thresholds: touch and release thresholds of each electrode in turn.
pub open spec fn threshold_write(k: int) -> (u8, u8) {
    ((REG_TOUCHTH_0 + k) as u8, if k % 2 == 0 { TOUCH_THRESH } else { RELEASE_THRESH })
}

/// The register writes that configure the chip once it has booted: thresholds,
/// filters, debounce, charge current and timing, autoconfiguration for 3.3 V, then all
/// electrodes enabled and the chip started.
pub open spec fn config_writes() -> Seq<(u8, u8)> {
    Seq::new(24, |k: int| threshold_write(k)) + seq![
        (0x2bu8, 0x01u8),
        (0x2cu8, 0x01u8),
        (0x2du8, 0x0eu8),
        (0x2eu8, 0x00u8),
        (0x2fu8, 0x01u8),
        (0x30u8, 0x05u8),
        (0x31u8, 0x01u8),
        (0x32u8, 0x00u8),
        (0x33u8, 0x00u8),
        (0x34u8, 0x00u8),
        (0x35u8, 0x00u8),
        (0x5bu8, 0x00u8),
        (0x5cu8, 0x10u8),
        (0x5du8, 0x20u8),
        (0x7bu8, 0x0bu8),
        (0x7du8, 200u8),
        (0x7fu8, 180u8),
        (0x7eu8, 130u8),
        (REG_ECR, 0x8cu8),
    ]
}

/// The register protocol of the chip; the bus itself stays with the caller.
pub struct Mpr121Interface {}

impl Mpr121Interface {
    pub fn new() -> (r: Self) {
        Mpr121Interface {  }
    }

    /// The writes that reset and stop the chip, to be made before CONFIG2 is read back.
    pub fn reset(&self) -> (w: Vec<(u8, u8)>)
        ensures
            w@ == reset_writes(),
    {
        let w = vec![(REG_SOFTRESET, 0x63u8), (REG_ECR, 0x00u8)];
        assert(w@ =~= reset_writes());
        w
    }

    /// Given what CONFIG2 read after the reset: the writes that configure and start the
    /// chip, or `Boot` if it did not read as after a reset.
    pub fn init<E>(&self, config2: u8) -> (r: Result<Vec<(u8, u8)>, Error<E>>)
        ensures
            config2 != BOOT_CONFIG2 <==> r matches Err(Error::Boot),
            r matches Ok(w) ==> w@ == config_writes(),
            !(r matches Err(Error::I2c(_))),
    {
        if config2 != BOOT_CONFIG2 {
            return Err(Error::Boot);
        }
        let mut w: Vec<(u8, u8)> = Vec::new();
        let mut k: u8 = 0;
        while k < 24
            invariant
                k <= 24,
                w@ == Seq::new(k as nat, |j: int| threshold_write(j)),
            decreases 24 - k,
        {
            let byte = if k % 2 == 0 { TOUCH_THRESH } else { RELEASE_THRESH };
            w.push((REG_TOUCHTH_0 + k, byte));
            assert(w@ =~= Seq::new((k + 1) as nat, |j: int| threshold_write(j)));
            k = k + 1;
        }
        let ghost thresholds = w@;
        w.push((0x2b, 0x01));
        w.push((0x2c, 0x01));
        w.push((0x2d, 0x0e));
        w.push((0x2e, 0x00));
        w.push((0x2f, 0x01));
        w.push((0x30, 0x05));
        w.push((0x31, 0x01));
        w.push((0x32, 0x00));
        w.push((0x33, 0x00));
        w.push((0x34, 0x00));
        w.push((0x35, 0x00));
        w.push((0x5b, 0x00));
        w.push((0x5c, 0x10));
        w.push((0x5d, 0x20));
        w.push((0x7b, 0x0b));
        w.push((0x7d, 200));
        w.push((0x7f, 180));
        w.push((0x7e, 130));
        w.push((REG_ECR, 0x80 + 12));
        assert(w@ =~= config_writes());
        Ok(w)
    }

    /// Which electrodes are touched, one bit each, from the two status bytes read from
    /// TOUCHSTATUS_L on (low byte first).
    pub fn touched(&self, status: [u8; 2]) -> (r: u16)
        ensures
            r == (status@[0] + 256 * status@[1]) % 4096,
    {
        let lo = status[0];
        let hi = status[1];
        let r = ((hi as u16) << 8u16 | lo as u16) & 0x0fffu16;
        assert(r == (lo + 256 * hi) % 4096) by (bit_vector)
            requires
                r == ((hi as u16) << 8u16 | lo as u16) & 0x0fffu16,
        ;
        r
    }
}

/// Whether electrode `i` is touched in the reading `x`.
pub open spec fn touched_bit(x: u16, i: u16) -> bool {
    (x >> i) & 1u16 == 1u16
}

/// The touches (`true`) and releases (`false`) of electrodes below `n` between the
/// readings `last` and `curr`, in order of electrode.
pub open spec fn touch_edges(last: u16, curr: u16, n: u16) -> Seq<(u8, bool)>
    decreases n,
{
    if n == 0 {
        Seq::empty()
    } else {
        let i = (n - 1) as u16;
        let before = touch_edges(last, curr, i);
        if touched_bit(curr, i) != touched_bit(last, i) {
            before.push((i as u8, touched_bit(curr, i)))
        } else {
            before
        }
    }
}

/// A chip's bus address and its last reading.
pub struct Mpr121Data {
    pub addr: u8,
    pub last: u16,
}

impl Mpr121Data {
    /// Nothing touched yet.
    pub fn new(addr: u8) -> (d: Self)
        ensures
            d.addr == addr,
            d.last == 0,
    {
        Mpr121Data { addr, last: 0 }
    }

    /// Takes a reading: the touches and releases since the last one, in order of
    /// electrode; the reading becomes the last.
    pub fn edges(&mut self, curr: u16) -> (e: Vec<(u8, bool)>)
        ensures
            e@ == touch_edges(old(self).last, curr, ELECTRODE_COUNT),
            final(self).last == curr,
            final(self).addr == old(self).addr,
    {
        let mut e: Vec<(u8, bool)> = Vec::new();
        let mut index: u16 = 0;
        while index < ELECTRODE_COUNT
            invariant
                index <= ELECTRODE_COUNT,
                e@ == touch_edges(self.last, curr, index),
            decreases ELECTRODE_COUNT - index,
        {
            let c = (curr >> index) & 1 == 1;
            let l = (self.last >> index) & 1 == 1;
            if c != l {
                e.push((index as u8, c));
            }
            index = index + 1;
        }
        self.last = curr;
        e
    }
}

/// The touch pads of both banks.
pub struct TouchHandler {
    pub bank_a: BankHandler,
    pub bank_b: BankHandler,
}

/// What touching (`down`) or releasing electrode `index` does to a bank: shift is
/// held while touched; kit with shift held saves the bank; a pad is held while
/// touched (as long as there is room) and answers as a pad gesture; reverse, hold
/// and kit answer as their gestures.
pub open spec fn touch_spec(old_h: BankHandler, new_h: BankHandler, index: u8, down: bool, delta: Seq<Output>) -> bool {
    let b = old_h.bank;
    if index == TOUCH_SHIFT {
        &&& delta == Seq::<Output>::empty()
        &&& new_h.shift == down
        &&& new_h.bank == old_h.bank && new_h.downs@ == old_h.downs@ && new_h.mode() == old_h.mode()
        &&& new_h.gain == old_h.gain && new_h.speed == old_h.speed && new_h.drift == old_h.drift
    } else if down && index == TOUCH_KIT && old_h.shift {
        delta == seq![Output::Audio(b, BankCmd::SaveBank)] && new_h == old_h
    } else if index < PAD_COUNT {
        let downs = if !down {
            without(old_h.downs@, index)
        } else if old_h.downs@.len() < PAD_COUNT {
            old_h.downs@.push(index)
        } else {
            old_h.downs@
        };
        let g = gesture_spec(b, downs, old_h.shift, old_h.mode(), if down { Gesture::PadDown } else { Gesture::PadUp });
        &&& new_h.downs@ == downs
        &&& new_h.mode() == g.0 && delta == g.1
        &&& new_h.bank == old_h.bank && new_h.shift == old_h.shift
        &&& new_h.gain == old_h.gain && new_h.speed == old_h.speed && new_h.drift == old_h.drift
    } else if index == TOUCH_REVERSE || index == TOUCH_HOLD || index == TOUCH_KIT {
        let g = if index == TOUCH_REVERSE {
            if down { Gesture::ReverseDown } else { Gesture::ReverseUp }
        } else if index == TOUCH_HOLD {
            if down { Gesture::HoldDown } else { Gesture::HoldUp }
        } else {
            if down { Gesture::KitDown } else { Gesture::KitUp }
        };
        let r = gesture_spec(b, old_h.downs@, old_h.shift, old_h.mode(), g);
        new_h.same_but_mode(&old_h) && new_h.mode() == r.0 && delta == r.1
    } else {
        delta == Seq::<Output>::empty() && new_h == old_h
    }
}

impl TouchHandler {
    pub open spec fn handler(&self, b: control::Bank) -> BankHandler {
        match b {
            control::Bank::A => self.bank_a,
            control::Bank::B => self.bank_b,
        }
    }

    pub open spec fn inv(&self) -> bool {
        &&& self.bank_a.wf() && self.bank_a.bank == control::Bank::A
        &&& self.bank_b.wf() && self.bank_b.bank == control::Bank::B
    }

    /// Both banks playing, nothing touched.
    pub fn new() -> (t: Self)
        ensures
            t.inv(),
            t.bank_a.downs@.len() == 0 && t.bank_b.downs@.len() == 0,
            t.bank_a.mode() == (control::Mode { reverse: false, hold: false, state: control::BankState::Mangle }),
            t.bank_b.mode() == (control::Mode { reverse: false, hold: false, state: control::BankState::Mangle }),
            !t.bank_a.shift && !t.bank_b.shift,
    {
        TouchHandler { bank_a: BankHandler::new(control::Bank::A), bank_b: BankHandler::new(control::Bank::B) }
    }

    /// Electrode `index` of bank `bank` released, as `touch_spec` says.
    pub fn touch_up(&mut self, bank: control::Bank, index: u8, out: &mut Vec<Output>)
        requires
            old(self).inv(),
        ensures
            final(self).inv(),
            final(out)@.len() >= old(out)@.len(),
            final(out)@.subrange(0, old(out)@.len() as int) == old(out)@,
            touch_spec(old(self).handler(bank), final(self).handler(bank), index, false,
                final(out)@.subrange(old(out)@.len() as int, final(out)@.len() as int)),
            final(self).handler(control::other(bank)) == old(self).handler(control::other(bank)),
    {
        match bank {
            control::Bank::A => touch(&mut self.bank_a, index, false, out),
            control::Bank::B => touch(&mut self.bank_b, index, false, out),
        }
    }

    /// Electrode `index` of bank `bank` touched, as `touch_spec` says.
    pub fn touch_down(&mut self, bank: control::Bank, index: u8, out: &mut Vec<Output>)
        requires
            old(self).inv(),
        ensures
            final(self).inv(),
            final(out)@.len() >= old(out)@.len(),
            final(out)@.subrange(0, old(out)@.len() as int) == old(out)@,
            touch_spec(old(self).handler(bank), final(self).handler(bank), index, true,
                final(out)@.subrange(old(out)@.len() as int, final(out)@.len() as int)),
            final(self).handler(control::other(bank)) == old(self).handler(control::other(bank)),
    {
        match bank {
            control::Bank::A => touch(&mut self.bank_a, index, true, out),
            control::Bank::B => touch(&mut self.bank_b, index, true, out),
        }
    }
}

fn touch(h: &mut BankHandler, index: u8, down: bool, out: &mut Vec<Output>)
    requires
        old(h).wf(),
    ensures
        final(h).wf(),
        final(out)@.len() >= old(out)@.len(),
        final(out)@.subrange(0, old(out)@.len() as int) == old(out)@,
        touch_spec(*old(h), *final(h), index, down, final(out)@.subrange(old(out)@.len() as int, final(out)@.len() as int)),
{
    broadcast use crate::lemma_appended;

    let ghost out0 = out@;
    if index == TOUCH_SHIFT {
        h.shift = down;
        assert(out@.subrange(out0.len() as int, out@.len() as int) =~= Seq::<Output>::empty());
    } else if down && index == TOUCH_KIT && h.shift {
        out.push(Output::Audio(h.bank, BankCmd::SaveBank));
        assert(out@.subrange(out0.len() as int, out@.len() as int) =~= seq![Output::Audio(h.bank, BankCmd::SaveBank)]);
    } else if index < PAD_COUNT as u8 {
        if down {
            if h.downs.len() < PAD_COUNT {
                h.downs.push(index);
            }
            proof {
                assert forall|i: int| 0 <= i < h.downs@.len() implies #[trigger] h.downs@[i] < PAD_COUNT by {
                    if i < old(h).downs@.len() {
                        assert(h.downs@[i] == old(h).downs@[i]);
                    }
                }
            }
            h.pad_down(out);
        } else {
            h.release_pad(index);
            h.pad_up(out);
        }
    } else if index == TOUCH_REVERSE {
        if down {
            h.reverse_down(out);
        } else {
            h.reverse_up(out);
        }
    } else if index == TOUCH_HOLD {
        if down {
            h.hold_down(out);
        } else {
            h.hold_up(out);
        }
    } else if index == TOUCH_KIT {
        if down {
            h.kit_down(out);
        } else {
            h.kit_up(out);
        }
    } else {
        assert(out@.subrange(out0.len() as int, out@.len() as int) =~= Seq::<Output>::empty());
    }
}

/// A reading the same as the last one gives no touches or releases.
pub proof fn lemma_same_reading_no_edges(x: u16, n: u16)
    ensures
        touch_edges(x, x, n) == Seq::<(u8, bool)>::empty(),
    decreases n,
{
    if n > 0 {
        lemma_same_reading_no_edges(x, (n - 1) as u16);
    }
}

/// Every touch or release is of an electrode below `n` and changed between the readings:
/// a touch is touched now and was not, a release the other way round.
pub proof fn lemma_edges_changed(last: u16, curr: u16, n: u16, k: int)
    requires
        n <= ELECTRODE_COUNT,
        0 <= k < touch_edges(last, curr, n).len(),
    ensures
        ({
            let (i, down) = touch_edges(last, curr, n)[k];
            &&& (i as u16) < n
            &&& down == touched_bit(curr, i as u16)
            &&& down != touched_bit(last, i as u16)
        }),
    decreases n,
{
    if n > 0 {
        let i = (n - 1) as u16;
        let before = touch_edges(last, curr, i);
        if k < before.len() {
            lemma_edges_changed(last, curr, i, k);
        }
    }
}

} // verus!
