//! What the display shows of each bank: which pads hold kits, onsets and phrases,
//! the pads held, and the sequence being built.
use vstd::prelude::*;

use heapless::Deque;

use crate::control;
use crate::history::{
    bounded_push, clear_pool_slots, held_items, held_pads, new_held, new_pool, pool_items, pool_slots,
    push_held, push_pool_slot, release_held, without,
};
use crate::pads;
use crate::{PAD_COUNT, PHRASE_COUNT};

verus! {

/// Which pads of a kit hold an onset.
#[derive(Copy, Clone, Debug)]
pub struct Kit {
    pub onsets: [bool; PAD_COUNT],
}

impl Default for Kit {
    fn default() -> (k: Self)
        ensures
            forall|i: int| 0 <= i < PAD_COUNT ==> !k.onsets@[i],
    {
        Kit { onsets: [false; PAD_COUNT] }
    }
}

/// Which slots of a bank hold a kit (and which of its pads an onset), and which a phrase.
#[derive(Copy, Clone, Debug)]
pub struct Bank {
    pub kits: [Option<Kit>; PAD_COUNT],
    pub phrases: [bool; PAD_COUNT],
}

impl Default for Bank {
    fn default() -> (b: Self)
        ensures
            forall|i: int| 0 <= i < PAD_COUNT ==> b.kits@[i] is None && !b.phrases@[i],
    {
        Bank { kits: [None; PAD_COUNT], phrases: [false; PAD_COUNT] }
    }
}

/// A kit of `bank` that holds at least one onset.
pub open spec fn kit_shown(bank: pads::Bank, i: int) -> bool {
    bank.kits@[i] matches Some(k) && exists|j: int| 0 <= j < PAD_COUNT && k.onsets@[j] is Some
}

/// The display's picture of slot `i` of `bank`.
pub open spec fn slot_picture(bank: pads::Bank, b: Bank, i: int) -> bool {
    &&& b.phrases@[i] == bank.phrases@[i] is Some
    &&& b.kits@[i] is Some == kit_shown(bank, i)
    &&& b.kits@[i] matches Some(w) ==> forall|j: int|
        0 <= j < PAD_COUNT ==> #[trigger] w.onsets@[j] == bank.kits@[i]->Some_0.onsets@[j] is Some
}

/// The display's picture of `bank`.
pub open spec fn bank_picture(bank: pads::Bank, b: Bank) -> bool {
    forall|i: int| 0 <= i < PAD_COUNT ==> #[trigger] slot_picture(bank, b, i)
}

/// The display's picture of a kit: `None` when it holds no onset.
fn shown_kit(kit: &pads::Kit) -> (w: Option<Kit>)
    ensures
        w is Some <==> exists|m: int| 0 <= m < PAD_COUNT && kit.onsets@[m] is Some,
        w matches Some(wk) ==> forall|m: int| 0 <= m < PAD_COUNT ==> #[trigger] wk.onsets@[m] == kit.onsets@[m] is Some,
{
    let mut w: Option<Kit> = None;
    let mut j: usize = 0;
    while j < PAD_COUNT
        invariant
            j <= PAD_COUNT,
            w is Some <==> exists|m: int| 0 <= m < j && kit.onsets@[m] is Some,
            w matches Some(wk) ==> forall|m: int|
                0 <= m < PAD_COUNT ==> #[trigger] wk.onsets@[m] == (m < j && kit.onsets@[m] is Some),
        decreases PAD_COUNT - j,
    {
        if kit.onsets[j].is_some() {
            let mut wk = match w {
                Some(wk) => wk,
                None => Kit { onsets: [false; PAD_COUNT] },
            };
            wk.onsets[j] = true;
            w = Some(wk);
        }
        j = j + 1;
    }
    w
}

impl Bank {
    /// The display's picture of `bank`: a slot shows a kit when it holds one, a kit's
    /// pad shows an onset when it holds one, and a slot shows a phrase when it holds one.
    pub fn from_audio(bank: &pads::Bank) -> (r: Self)
        ensures
            bank_picture(*bank, r),
    {
        let mut ret = Bank { kits: [None; PAD_COUNT], phrases: [false; PAD_COUNT] };
        let mut i: usize = 0;
        while i < PAD_COUNT
            invariant
                i <= PAD_COUNT,
                forall|k: int| 0 <= k < i ==> #[trigger] slot_picture(*bank, ret, k),
            decreases PAD_COUNT - i,
        {
            let ghost prev = ret;
            ret.kits[i] = match &bank.kits[i] {
                Some(kit) => shown_kit(kit),
                None => None,
            };
            ret.phrases[i] = bank.phrases[i].is_some();
            assert forall|k: int| 0 <= k < i + 1 implies #[trigger] slot_picture(*bank, ret, k) by {
                if k < i {
                    assert(slot_picture(*bank, prev, k));
                    assert(ret.kits@[k] == prev.kits@[k]);
                    assert(ret.phrases@[k] == prev.phrases@[k]);
                }
            }
            i = i + 1;
        }
        ret
    }
}

/// What the display of a bank is told.
#[derive(Copy, Clone, Debug)]
pub enum BankCmd {
    Pad(u8, bool),
    LoadBank(Bank),
    Mangle,
    LoadKit(Option<u8>),
    BakeRecord(Option<u8>, u16),
    ClearPool,
    PushPool(Option<u8>),
}

/// What the pads of a bank show.
#[derive(Copy, Clone, Debug, PartialEq, Eq, Structural)]
pub enum BankState {
    Mangle,
    LoadKit { index: Option<u8> },
    BakeRecord { index: Option<u8>, len: u16 },
    PushPool { index: Option<u8> },
}

/// The display's state of one bank.
pub struct BankHandler {
    pub kit_index: usize,
    pub bank: Bank,
    pub downs: heapless::Vec<u8, PAD_COUNT>,
    pub pool: Deque<u8, PHRASE_COUNT>,
    pub state: BankState,
}

/// The display's state of one bank as its operations see it.
pub struct BankView {
    pub kit_index: usize,
    pub bank: Bank,
    pub downs: Seq<u8>,
    pub pool: Seq<u8>,
    pub state: BankState,
}

/// What a pad press or release does: a press is added to the pads held (and, while
/// building a sequence, to the sequence); a release drops the pad from those held.
pub open spec fn pad_spec(v: BankView, index: u8, down: bool) -> BankView {
    if down {
        BankView {
            downs: bounded_push(v.downs, index, PAD_COUNT as nat),
            pool: if v.state is PushPool {
                bounded_push(v.pool, index, PHRASE_COUNT as nat)
            } else {
                v.pool
            },
            ..v
        }
    } else {
        BankView { downs: without(v.downs, index), ..v }
    }
}

/// What each display command does to a bank.
pub open spec fn bank_cmd_spec(v: BankView, cmd: BankCmd) -> BankView {
    match cmd {
        BankCmd::Pad(index, down) => pad_spec(v, index, down),
        BankCmd::LoadBank(bank) => BankView { bank, ..v },
        BankCmd::Mangle => BankView {
            bank: match v.state {
                BankState::BakeRecord { index: Some(i), .. } => Bank {
                    phrases: vstd::array::spec_array_update(v.bank.phrases, i as int, true),
                    ..v.bank
                },
                _ => v.bank,
            },
            state: BankState::Mangle,
            ..v
        },
        BankCmd::LoadKit(index) => BankView {
            kit_index: match index {
                Some(i) => i as usize,
                None => v.kit_index,
            },
            state: BankState::LoadKit { index },
            ..v
        },
        BankCmd::BakeRecord(index, len) => BankView { state: BankState::BakeRecord { index, len }, ..v },
        BankCmd::ClearPool => BankView { pool: Seq::empty(), ..v },
        BankCmd::PushPool(index) => BankView {
            pool: match index {
                Some(i) => if v.bank.phrases@[i as int] {
                    bounded_push(v.pool, i, PHRASE_COUNT as nat)
                } else {
                    v.pool
                },
                None => v.pool,
            },
            state: BankState::PushPool { index },
            ..v
        },
    }
}

/// The display command names existing pads.
pub open spec fn bank_cmd_ok(v: BankView, cmd: BankCmd) -> bool {
    match cmd {
        BankCmd::Mangle => v.state matches BankState::BakeRecord { index: Some(i), .. } ==> i < PAD_COUNT,
        BankCmd::PushPool(Some(i)) => i < PAD_COUNT,
        _ => true,
    }
}

/// The glyph of pad `i`: `@` on `mark`, otherwise `base`.
pub open spec fn marked(base: u8, i: int, mark: Option<u8>) -> u8 {
    if mark matches Some(m) && m == i {
        0x40
    } else {
        base
    }
}

/// The first of the pads held, if any.
pub open spec fn first_of(s: Seq<u8>) -> Option<u8> {
    if s.len() > 0 {
        Some(s[0])
    } else {
        None
    }
}

/// Held pads show `.`, others a blank; the first held pad shows `@`.
pub open spec fn held_glyph(downs: Seq<u8>, i: int) -> u8 {
    marked(if downs.contains(i as u8) { 0x2e } else { 0x20 }, i, first_of(downs))
}

impl BankHandler {
    pub open spec fn view(&self) -> BankView {
        BankView {
            kit_index: self.kit_index,
            bank: self.bank,
            downs: held_pads(self.downs),
            pool: pool_slots(self.pool),
            state: self.state,
        }
    }

    /// Playing, nothing shown.
    pub fn new() -> (h: Self)
        ensures
            h.view() == (BankView {
                kit_index: 0,
                bank: h.bank,
                downs: Seq::empty(),
                pool: Seq::empty(),
                state: BankState::Mangle,
            }),
            forall|i: int| 0 <= i < PAD_COUNT ==> #[trigger] h.bank.kits@[i] is None,
            forall|i: int| 0 <= i < PAD_COUNT ==> !#[trigger] h.bank.phrases@[i],
    {
        BankHandler {
            kit_index: 0,
            bank: Bank { kits: [None; PAD_COUNT], phrases: [false; PAD_COUNT] },
            downs: new_held(),
            pool: new_pool(),
            state: BankState::Mangle,
        }
    }

    /// Applies a display command, as `bank_cmd_spec` says.
    pub fn cmd(&mut self, cmd: BankCmd)
        requires
            bank_cmd_ok(old(self).view(), cmd),
        ensures
            final(self).view() == bank_cmd_spec(old(self).view(), cmd),
    {
        match cmd {
            BankCmd::Pad(index, down) => self.pad(index, down),
            BankCmd::LoadBank(bank) => self.bank = bank,
            BankCmd::Mangle => self.mangle(),
            BankCmd::LoadKit(index) => self.load_kit(index),
            BankCmd::BakeRecord(index, len) => self.state = BankState::BakeRecord { index, len },
            BankCmd::PushPool(index) => self.push_pool(index),
            BankCmd::ClearPool => clear_pool_slots(&mut self.pool),
        }
    }

    /// A pad pressed or released, as `pad_spec` says.
    pub fn pad(&mut self, index: u8, down: bool)
        ensures
            final(self).view() == pad_spec(old(self).view(), index, down),
    {
        if down {
            push_held(&mut self.downs, index);
            if let BankState::PushPool { .. } = self.state {
                push_pool_slot(&mut self.pool, index);
            }
        } else {
            release_held(&mut self.downs, index);
        }
    }

    /// Back to playing; a phrase being cut into a slot now shows in that slot.
    pub fn mangle(&mut self)
        requires
            old(self).state matches BankState::BakeRecord { index: Some(i), .. } ==> i < PAD_COUNT,
        ensures
            final(self).view() == bank_cmd_spec(old(self).view(), BankCmd::Mangle),
    {
        if let BankState::BakeRecord { index: Some(index), .. } = self.state {
            self.bank.phrases[index as usize] = true;
        }
        self.state = BankState::Mangle;
    }

    /// Choosing a kit; a chosen kit becomes the current one.
    pub fn load_kit(&mut self, index: Option<u8>)
        ensures
            final(self).view() == bank_cmd_spec(old(self).view(), BankCmd::LoadKit(index)),
    {
        if let Some(index) = index {
            self.kit_index = index as usize;
        }
        self.state = BankState::LoadKit { index };
    }

    /// Building a sequence; a slot that holds a phrase is appended to it.
    pub fn push_pool(&mut self, index: Option<u8>)
        requires
            index matches Some(i) ==> i < PAD_COUNT,
        ensures
            final(self).view() == bank_cmd_spec(old(self).view(), BankCmd::PushPool(index)),
    {
        if let Some(index) = index {
            if self.bank.phrases[index as usize] {
                push_pool_slot(&mut self.pool, index);
            }
        }
        self.state = BankState::PushPool { index };
    }

    /// The sequence being built.
    pub fn pool(&self) -> (r: Vec<u8>)
        ensures
            r@ == self.view().pool,
    {
        pool_items(&self.pool)
    }

    /// The pads while playing or cutting a phrase: as `held_glyph` says, with `mark`
    /// (when given) shown as `@` in place of the first held pad.
    pub fn held_glyphs(&self, mark: Option<Option<u8>>) -> (r: [u8; PAD_COUNT])
        requires
            self.downs_ok(),
            mark matches Some(Some(m)) ==> m < PAD_COUNT,
        ensures
            forall|i: int|
                0 <= i < PAD_COUNT ==> #[trigger] r@[i] == match mark {
                    None => held_glyph(self.view().downs, i),
                    Some(m) => marked(
                        if self.view().downs.contains(i as u8) { 0x2e } else { 0x20 },
                        i,
                        m,
                    ),
                },
    {
        let downs = held_items(&self.downs);
        let mark_at = match mark {
            None => if downs.len() > 0 {
                Some(downs[0])
            } else {
                None
            },
            Some(m) => m,
        };
        let mut r = [0x20u8; PAD_COUNT];
        let mut i: usize = 0;
        while i < PAD_COUNT
            invariant
                i <= PAD_COUNT,
                downs@ == self.view().downs,
                mark_at == match mark {
                    None => first_of(self.view().downs),
                    Some(m) => m,
                },
                forall|j: int|
                    0 <= j < i ==> #[trigger] r@[j] == marked(
                        if downs@.contains(j as u8) { 0x2e } else { 0x20 },
                        j,
                        mark_at,
                    ),
            decreases PAD_COUNT - i,
        {
            let held = contains_pad(&downs, i as u8);
            let base: u8 = if held { 0x2e } else { 0x20 };
            r[i] = match mark_at {
                Some(m) => if m as usize == i {
                    0x40
                } else {
                    base
                },
                None => base,
            };
            i = i + 1;
        }
        r
    }

    /// The held pads are real pads.
    pub open spec fn downs_ok(&self) -> bool {
        forall|i: int| 0 <= i < self.view().downs.len() ==> #[trigger] self.view().downs[i] < PAD_COUNT
    }

    /// Whether the held pads are real pads, as `downs_ok` says.
    pub fn downs_real(&self) -> (r: bool)
        ensures
            r == self.downs_ok(),
    {
        let downs = held_items(&self.downs);
        let mut i: usize = 0;
        while i < downs.len()
            invariant
                downs@ == self.view().downs,
                i <= downs@.len(),
                forall|j: int| 0 <= j < i ==> #[trigger] downs@[j] < PAD_COUNT,
            decreases downs@.len() - i,
        {
            if downs[i] as usize >= PAD_COUNT {
                return false;
            }
            i = i + 1;
        }
        true
    }

    /// The pads while choosing a kit: `k` where the slot holds a kit or a phrase, `@` on `index`.
    pub fn kit_glyphs(&self, index: Option<u8>) -> (r: [u8; PAD_COUNT])
        ensures
            forall|i: int|
                0 <= i < PAD_COUNT ==> #[trigger] r@[i] == marked(
                    if self.bank.kits@[i] is Some || self.bank.phrases@[i] { 0x6b } else { 0x20 },
                    i,
                    index,
                ),
    {
        let mut r = [0x20u8; PAD_COUNT];
        let mut i: usize = 0;
        while i < PAD_COUNT
            invariant
                i <= PAD_COUNT,
                forall|j: int|
                    0 <= j < i ==> #[trigger] r@[j] == marked(
                        if self.bank.kits@[j] is Some || self.bank.phrases@[j] { 0x6b } else { 0x20 },
                        j,
                        index,
                    ),
            decreases PAD_COUNT - i,
        {
            let base: u8 = if self.bank.kits[i].is_some() || self.bank.phrases[i] {
                0x6b
            } else {
                0x20
            };
            r[i] = match index {
                Some(m) => if m as usize == i {
                    0x40
                } else {
                    base
                },
                None => base,
            };
            i = i + 1;
        }
        r
    }

    /// The pads while building a sequence: `p` where the slot holds a phrase, `@` on `index`.
    pub fn pool_glyphs(&self, index: Option<u8>) -> (r: [u8; PAD_COUNT])
        ensures
            forall|i: int|
                0 <= i < PAD_COUNT ==> #[trigger] r@[i] == marked(
                    if self.bank.phrases@[i] { 0x70 } else { 0x20 },
                    i,
                    index,
                ),
    {
        let mut r = [0x20u8; PAD_COUNT];
        let mut i: usize = 0;
        while i < PAD_COUNT
            invariant
                i <= PAD_COUNT,
                forall|j: int|
                    0 <= j < i ==> #[trigger] r@[j] == marked(
                        if self.bank.phrases@[j] { 0x70 } else { 0x20 },
                        j,
                        index,
                    ),
            decreases PAD_COUNT - i,
        {
            let base: u8 = if self.bank.phrases[i] {
                0x70
            } else {
                0x20
            };
            r[i] = match index {
                Some(m) => if m as usize == i {
                    0x40
                } else {
                    base
                },
                None => base,
            };
            i = i + 1;
        }
        r
    }

    /// The pads while loading a bank: `k` where the slot holds a kit, `@` on the first held pad.
    pub fn bank_glyphs(&self) -> (r: [u8; PAD_COUNT])
        ensures
            forall|i: int|
                0 <= i < PAD_COUNT ==> #[trigger] r@[i] == marked(
                    if self.bank.kits@[i] is Some { 0x6b } else { 0x20 },
                    i,
                    first_of(self.view().downs),
                ),
    {
        let downs = held_items(&self.downs);
        let first = if downs.len() > 0 {
            Some(downs[0])
        } else {
            None
        };
        let mut r = [0x20u8; PAD_COUNT];
        let mut i: usize = 0;
        while i < PAD_COUNT
            invariant
                i <= PAD_COUNT,
                first == first_of(self.view().downs),
                forall|j: int|
                    0 <= j < i ==> #[trigger] r@[j] == marked(
                        if self.bank.kits@[j] is Some { 0x6b } else { 0x20 },
                        j,
                        first,
                    ),
            decreases PAD_COUNT - i,
        {
            let base: u8 = if self.bank.kits[i].is_some() {
                0x6b
            } else {
                0x20
            };
            r[i] = match first {
                Some(m) => if m as usize == i {
                    0x40
                } else {
                    base
                },
                None => base,
            };
            i = i + 1;
        }
        r
    }

    /// The pads while loading samples: `o` where the current kit holds an onset, `@` on
    /// the first held pad.
    pub fn onset_glyphs(&self) -> (r: [u8; PAD_COUNT])
        requires
            self.kit_index < PAD_COUNT,
        ensures
            forall|i: int|
                0 <= i < PAD_COUNT ==> #[trigger] r@[i] == marked(
                    if self.bank.kits@[self.kit_index as int] matches Some(k) && k.onsets@[i] {
                        0x6f
                    } else {
                        0x20
                    },
                    i,
                    first_of(self.view().downs),
                ),
    {
        let downs = held_items(&self.downs);
        let first = if downs.len() > 0 {
            Some(downs[0])
        } else {
            None
        };
        let kit = self.bank.kits[self.kit_index];
        let mut r = [0x20u8; PAD_COUNT];
        let mut i: usize = 0;
        while i < PAD_COUNT
            invariant
                i <= PAD_COUNT,
                first == first_of(self.view().downs),
                kit == self.bank.kits@[self.kit_index as int],
                forall|j: int|
                    0 <= j < i ==> #[trigger] r@[j] == marked(
                        if kit matches Some(k) && k.onsets@[j] { 0x6f } else { 0x20 },
                        j,
                        first,
                    ),
            decreases PAD_COUNT - i,
        {
            let base: u8 = match kit {
                Some(k) => if k.onsets[i] {
                    0x6f
                } else {
                    0x20
                },
                None => 0x20,
            };
            r[i] = match first {
                Some(m) => if m as usize == i {
                    0x40
                } else {
                    base
                },
                None => base,
            };
            i = i + 1;
        }
        r
    }
}

fn contains_pad(downs: &Vec<u8>, x: u8) -> (r: bool)
    ensures
        r == downs@.contains(x),
{
    let mut i: usize = 0;
    while i < downs.len()
        invariant
            i <= downs@.len(),
            forall|j: int| 0 <= j < i ==> downs@[j] != x,
        decreases downs@.len() - i,
    {
        if downs[i] == x {
            return true;
        }
        i = i + 1;
    }
    false
}

/// What the display shows as a whole: the banks, or a browser (the listing itself
/// stays with the caller).
#[derive(Copy, Clone, Debug, PartialEq, Eq, Structural)]
pub enum TuiState {
    Yield,
    LoadBd,
    LoadRd,
    LoadOnset { index: usize, count: usize },
}

/// What the display is told (messages to log and listings stay with the caller).
#[derive(Copy, Clone, Debug)]
pub enum Cmd {
    Clock,
    Stop,
    Yield,
    LoadBd,
    LoadRd,
    LoadOnset { index: usize, count: usize },
    Bank(control::Bank, BankCmd),
}

/// The display: both banks, whether the controls are deafened, the clock's blink and
/// what is shown.
pub struct TuiHandler {
    pub bank_a: BankHandler,
    pub bank_b: BankHandler,
    pub deafen: bool,
    pub clock: bool,
    pub state: TuiState,
}

/// `new_b` is `old_b` with an onset shown on pad `index` of kit `kit` (the kit shown if
/// it was not).
pub open spec fn onset_marked(old_b: Bank, new_b: Bank, kit: int, index: int) -> bool {
    &&& new_b.phrases == old_b.phrases
    &&& forall|k: int| 0 <= k < PAD_COUNT && k != kit ==> #[trigger] new_b.kits@[k] == old_b.kits@[k]
    &&& new_b.kits@[kit] is Some
    &&& forall|j: int|
        0 <= j < PAD_COUNT ==> #[trigger] new_b.kits@[kit]->Some_0.onsets@[j] == (j == index || (
        old_b.kits@[kit] matches Some(ok) && ok.onsets@[j]))
}

impl TuiHandler {
    pub open spec fn handler(&self, b: control::Bank) -> BankHandler {
        match b {
            control::Bank::A => self.bank_a,
            control::Bank::B => self.bank_b,
        }
    }

    /// Each bank's current kit is one of its slots.
    pub open spec fn inv(&self) -> bool {
        &&& self.bank_a.kit_index < PAD_COUNT
        &&& self.bank_b.kit_index < PAD_COUNT
    }

    /// A display command names existing pads.
    pub open spec fn cmd_ok(&self, cmd: Cmd) -> bool {
        match cmd {
            Cmd::Bank(b, c) => {
                &&& bank_cmd_ok(self.handler(b).view(), c)
                &&& (c matches BankCmd::LoadKit(Some(i)) ==> i < PAD_COUNT)
                &&& (c matches BankCmd::Pad(i, true) ==> i < PAD_COUNT)
            },
            _ => true,
        }
    }

    /// Whether the display command names existing pads, as `cmd_ok` says.
    pub fn accepts(&self, cmd: &Cmd) -> (r: bool)
        ensures
            r == self.cmd_ok(*cmd),
    {
        match cmd {
            Cmd::Bank(b, c) => {
                let h = match b {
                    control::Bank::A => &self.bank_a,
                    control::Bank::B => &self.bank_b,
                };
                let ok = match c {
                    BankCmd::Mangle => match h.state {
                        BankState::BakeRecord { index: Some(i), .. } => (i as usize) < PAD_COUNT,
                        _ => true,
                    },
                    BankCmd::PushPool(Some(i)) => (*i as usize) < PAD_COUNT,
                    _ => true,
                };
                let kit_ok = match c {
                    BankCmd::LoadKit(Some(i)) => (*i as usize) < PAD_COUNT,
                    _ => true,
                };
                let pad_ok = match c {
                    BankCmd::Pad(i, true) => (*i as usize) < PAD_COUNT,
                    _ => true,
                };
                ok && kit_ok && pad_ok
            },
            _ => true,
        }
    }

    /// The banks showing nothing, the banks in view.
    pub fn new() -> (t: Self)
        ensures
            t.inv(),
            t.bank_a.view().downs.len() == 0 && t.bank_b.view().downs.len() == 0,
            t.bank_a.view().pool.len() == 0 && t.bank_b.view().pool.len() == 0,
            t.bank_a.state == BankState::Mangle && t.bank_b.state == BankState::Mangle,
            t.bank_a.kit_index == 0 && t.bank_b.kit_index == 0,
            forall|i: int| 0 <= i < PAD_COUNT ==> #[trigger] t.bank_a.bank.kits@[i] is None,
            forall|i: int| 0 <= i < PAD_COUNT ==> !#[trigger] t.bank_a.bank.phrases@[i],
            forall|i: int| 0 <= i < PAD_COUNT ==> #[trigger] t.bank_b.bank.kits@[i] is None,
            forall|i: int| 0 <= i < PAD_COUNT ==> !#[trigger] t.bank_b.bank.phrases@[i],
            !t.deafen && !t.clock,
            t.state == TuiState::Yield,
    {
        let bank_a = BankHandler::new();
        let bank_b = BankHandler::new();
        TuiHandler {
            bank_a,
            bank_b,
            deafen: false,
            clock: false,
            state: TuiState::Yield,
        }
    }

    /// Enter pressed: the controls are deafened, or hear again; returns the new setting.
    pub fn toggle_deafen(&mut self) -> (deafen: bool)
        ensures
            deafen == !old(self).deafen,
            final(self).deafen == deafen,
            final(self).clock == old(self).clock && final(self).state == old(self).state,
            final(self).bank_a.view() == old(self).bank_a.view(),
            final(self).bank_b.view() == old(self).bank_b.view(),
    {
        self.deafen = !self.deafen;
        self.deafen
    }

    /// A display command: a step blinks the clock, a stop turns it off; the banks come
    /// back into view playing; a browser comes into view; a bank command goes to its
    /// bank, and a pad pressed while onsets are being chosen also shows an onset on that
    /// pad of the bank's current kit.
    pub fn cmd(&mut self, cmd: Cmd)
        requires
            old(self).inv(),
            old(self).cmd_ok(cmd),
        ensures
            final(self).inv(),
            final(self).deafen == old(self).deafen,
            match cmd {
                Cmd::Bank(b, c) => {
                    let ov = old(self).handler(b).view();
                    let nv = final(self).handler(b).view();
                    &&& final(self).handler(control::other(b)).view() == old(self).handler(control::other(b)).view()
                    &&& final(self).clock == old(self).clock && final(self).state == old(self).state
                    &&& if (c matches BankCmd::Pad(index, true)) && old(self).state is LoadOnset {
                        &&& nv == (BankView { bank: nv.bank, ..bank_cmd_spec(ov, c) })
                        &&& onset_marked(ov.bank, nv.bank, ov.kit_index as int, c->Pad_0 as int)
                    } else {
                        nv == bank_cmd_spec(ov, c)
                    }
                },
                Cmd::Yield => {
                    &&& final(self).state == TuiState::Yield && final(self).clock == old(self).clock
                    &&& final(self).bank_a.view() == (BankView { state: BankState::Mangle, ..old(self).bank_a.view() })
                    &&& final(self).bank_b.view() == (BankView { state: BankState::Mangle, ..old(self).bank_b.view() })
                },
                _ => {
                    &&& final(self).bank_a.view() == old(self).bank_a.view()
                    &&& final(self).bank_b.view() == old(self).bank_b.view()
                    &&& match cmd {
                        Cmd::Clock => final(self).clock == !old(self).clock && final(self).state == old(self).state,
                        Cmd::Stop => !final(self).clock && final(self).state == old(self).state,
                        Cmd::LoadBd => final(self).state == TuiState::LoadBd && final(self).clock == old(self).clock,
                        Cmd::LoadRd => final(self).state == TuiState::LoadRd && final(self).clock == old(self).clock,
                        Cmd::LoadOnset { index, count } => final(self).state == (TuiState::LoadOnset { index, count })
                            && final(self).clock == old(self).clock,
                        _ => true,
                    }
                },
            },
    {
        match cmd {
            Cmd::Clock => self.clock = !self.clock,
            Cmd::Stop => self.clock = false,
            Cmd::Yield => {
                self.state = TuiState::Yield;
                self.bank_a.state = BankState::Mangle;
                self.bank_b.state = BankState::Mangle;
            },
            Cmd::LoadBd => self.state = TuiState::LoadBd,
            Cmd::LoadRd => self.state = TuiState::LoadRd,
            Cmd::LoadOnset { index, count } => self.state = TuiState::LoadOnset { index, count },
            Cmd::Bank(b, c) => {
                let choosing = match self.state {
                    TuiState::LoadOnset { .. } => true,
                    _ => false,
                };
                match b {
                    control::Bank::A => bank_cmd_marking(&mut self.bank_a, c, choosing),
                    control::Bank::B => bank_cmd_marking(&mut self.bank_b, c, choosing),
                }
            },
        }
    }
}

/// A bank command, a pad press while `choosing` onsets also showing an onset on that
/// pad of the current kit.
fn bank_cmd_marking(h: &mut BankHandler, c: BankCmd, choosing: bool)
    requires
        old(h).kit_index < PAD_COUNT,
        bank_cmd_ok(old(h).view(), c),
        c matches BankCmd::LoadKit(Some(i)) ==> i < PAD_COUNT,
        c matches BankCmd::Pad(i, true) ==> i < PAD_COUNT,
    ensures
        final(h).kit_index < PAD_COUNT,
        if (c matches BankCmd::Pad(index, true)) && choosing {
            &&& final(h).view() == (BankView { bank: final(h).view().bank, ..bank_cmd_spec(old(h).view(), c) })
            &&& onset_marked(old(h).bank, final(h).bank, old(h).kit_index as int, c->Pad_0 as int)
        } else {
            final(h).view() == bank_cmd_spec(old(h).view(), c)
        },
{
    if let BankCmd::Pad(index, true) = c {
        if choosing {
            let k = h.kit_index;
            let mut kit = match h.bank.kits[k] {
                Some(kit) => kit,
                None => Kit { onsets: [false; PAD_COUNT] },
            };
            kit.onsets[index as usize] = true;
            h.bank.kits[k] = Some(kit);
        }
    }
    h.cmd(c);
}

/// A line of `N` characters for the small display, drawn plain or inverted.
pub struct Text<const N: usize> {
    pub string: [u8; N],
    pub invert: bool,
}

impl<const N: usize> Text<N> {
    /// `string`, drawn plain.
    pub fn base(string: [u8; N]) -> (t: Self)
        ensures
            t.string == string && !t.invert,
    {
        Text { string, invert: false }
    }

    /// `string`, drawn inverted.
    pub fn invert(string: [u8; N]) -> (t: Self)
        ensures
            t.string == string && t.invert,
    {
        Text { string, invert: true }
    }
}

/// A pad pressed and released again, not held before and with room to hold it, leaves
/// the pads shown as held as they were.
pub proof fn lemma_pad_round_trip(v: BankView, index: u8)
    requires
        !v.downs.contains(index),
        v.downs.len() < PAD_COUNT,
    ensures
        pad_spec(pad_spec(v, index, true), index, false).downs == v.downs,
{
    crate::history::lemma_press_release(v.downs, index);
}

} // verus!
