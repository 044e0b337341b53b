use vstd::prelude::*;
use vstd::std_specs::ops::MulSpec;

use crate::passive::{Onset, Phrase};
use crate::PAD_COUNT;

verus! {

/// A base value scaled by an offset; `net` is their product.
pub struct Mod<T: Copy + core::ops::Mul> {
    pub base: T,
    pub offset: T,
}

impl<T: Copy + core::ops::Mul> Mod<T> {
    pub fn new(base: T, offset: T) -> (m: Self)
        ensures
            m.base == base,
            m.offset == offset,
    {
        Self { base, offset }
    }

    /// The product `base * offset`.
    pub fn net(&self) -> (r: T::Output)
        requires
            self.base.mul_req(self.offset),
        ensures
            T::obeys_mul_spec() ==> r == self.base.mul_spec(self.offset),
    {
        self.base * self.offset
    }
}

/// The onsets of a kit, one per pad.
#[derive(Clone, Debug)]
pub struct Kit {
    pub onsets: [Option<Onset>; PAD_COUNT],
}

impl Default for Kit {
    /// A kit with no onsets.
    fn default() -> (k: Self)
        ensures
            forall|i: int| 0 <= i < PAD_COUNT ==> k.onsets@[i] is None,
    {
        Kit { onsets: [None, None, None, None, None, None, None, None] }
    }
}

/// A bank: up to one kit and one phrase per pad.
#[derive(Clone, Debug)]
pub struct Bank {
    pub kits: [Option<Kit>; PAD_COUNT],
    pub phrases: [Option<Phrase>; PAD_COUNT],
}

impl Default for Bank {
    /// A bank with no kits and no phrases.
    fn default() -> (b: Self)
        ensures
            forall|i: int| 0 <= i < PAD_COUNT ==> b.kits@[i] is None && b.phrases@[i] is None,
    {
        Bank {
            kits: [None, None, None, None, None, None, None, None],
            phrases: [None, None, None, None, None, None, None, None],
        }
    }
}

/// The kit slots that hold a kit, visited cyclically from `start`: of the first `k`
/// slots `start`, `start + 1`, ... (modulo the pad count), those that are occupied, in
/// visiting order.
pub open spec fn occupied_from(kits: Seq<Option<Kit>>, start: int, k: nat) -> Seq<int>
    decreases k,
{
    if k == 0 {
        seq![]
    } else {
        let prev = occupied_from(kits, start, (k - 1) as nat);
        let j = (start + k - 1) % (PAD_COUNT as int);
        if kits[j] is Some {
            prev.push(j)
        } else {
            prev
        }
    }
}

/// All occupied kit slots in cyclic order from `start`.
pub open spec fn kit_order(kits: Seq<Option<Kit>>, start: int) -> Seq<int> {
    occupied_from(kits, start, PAD_COUNT as nat)
}

/// The slot of the kit chosen from `start` with `drift`: the occupied slot that is
/// `drift` occupied slots after the first occupied one at or after `start`, cyclically.
pub open spec fn kit_choice(kits: Seq<Option<Kit>>, start: int, drift: int) -> Option<int> {
    let order = kit_order(kits, start);
    if order.len() == 0 {
        None
    } else {
        Some(order[drift % (order.len() as int)])
    }
}

proof fn lemma_occupied_from(kits: Seq<Option<Kit>>, start: int, k: nat)
    requires
        kits.len() == PAD_COUNT,
        start >= 0,
        k <= PAD_COUNT,
    ensures
        occupied_from(kits, start, k).len() <= k,
        forall|i: int|
            0 <= i < occupied_from(kits, start, k).len() ==> {
                let j = #[trigger] occupied_from(kits, start, k)[i];
                0 <= j < PAD_COUNT && kits[j] is Some
            },
        k > 0 && kits[start % (PAD_COUNT as int)] is Some ==> occupied_from(kits, start, k).len()
            > 0 && occupied_from(kits, start, k)[0] == start % (PAD_COUNT as int),
        (forall|j: int| 0 <= j < PAD_COUNT ==> kits[j] is None) ==> occupied_from(kits, start, k).len()
            == 0,
    decreases k,
{
    if k > 0 {
        lemma_occupied_from(kits, start, (k - 1) as nat);
    }
}

/// Some kit is chosen exactly when the bank holds a kit; the chosen slot holds one.
pub proof fn lemma_kit_choice_occupied(kits: Seq<Option<Kit>>, start: int, drift: int)
    requires
        kits.len() == PAD_COUNT,
        start >= 0,
    ensures
        kit_choice(kits, start, drift) is Some <==> exists|j: int| 0 <= j < PAD_COUNT && kits[j] is Some,
        kit_choice(kits, start, drift) matches Some(j) ==> 0 <= j < PAD_COUNT && kits[j] is Some,
{
    lemma_occupied_from(kits, start, PAD_COUNT as nat);
    let order = kit_order(kits, start);
    if order.len() > 0 {
        let i = drift % (order.len() as int);
        assert(0 <= order[i] < PAD_COUNT && kits[order[i]] is Some);
    } else {
        assert forall|j: int| 0 <= j < PAD_COUNT implies kits[j] is None by {
            if kits[j] is Some {
                // slot j is visited at step (j - start) mod count
                let k = ((j - start) % (PAD_COUNT as int) + 1) as nat;
                lemma_occupied_visits(kits, start, k, j);
            }
        }
    }
}

proof fn lemma_occupied_visits(kits: Seq<Option<Kit>>, start: int, k: nat, j: int)
    requires
        kits.len() == PAD_COUNT,
        start >= 0,
        1 <= k <= PAD_COUNT,
        0 <= j < PAD_COUNT,
        kits[j] is Some,
        (start + k - 1) % (PAD_COUNT as int) == j,
    ensures
        occupied_from(kits, start, PAD_COUNT as nat).len() > 0,
    decreases PAD_COUNT - k,
{
    if k < PAD_COUNT {
        lemma_occupied_grows(kits, start, k);
        assert(occupied_from(kits, start, k).len() > 0);
        lemma_occupied_monotone(kits, start, k, PAD_COUNT as nat);
    }
}

proof fn lemma_occupied_grows(kits: Seq<Option<Kit>>, start: int, k: nat)
    requires
        k >= 1,
        kits[(start + k - 1) % (PAD_COUNT as int)] is Some,
    ensures
        occupied_from(kits, start, k).len() > 0,
{
}

proof fn lemma_occupied_monotone(kits: Seq<Option<Kit>>, start: int, k: nat, m: nat)
    requires
        k <= m,
    ensures
        occupied_from(kits, start, k).len() <= occupied_from(kits, start, m).len(),
    decreases m - k,
{
    if k < m {
        lemma_occupied_monotone(kits, start, k, (m - 1) as nat);
    }
}

/// With no drift, a bank whose kit at `start` is present chooses that kit.
pub proof fn lemma_kit_choice_no_drift(kits: Seq<Option<Kit>>, start: int)
    requires
        kits.len() == PAD_COUNT,
        0 <= start < PAD_COUNT,
        kits[start] is Some,
    ensures
        kit_choice(kits, start, 0) == Some(start),
{
    lemma_occupied_from(kits, start, PAD_COUNT as nat);
}

/// Drifting by the number of present kits comes back to the same kit.
pub proof fn lemma_kit_choice_cycles(kits: Seq<Option<Kit>>, start: int, drift: int)
    requires
        kits.len() == PAD_COUNT,
        start >= 0,
    ensures
        kit_choice(kits, start, drift + kit_order(kits, start).len()) == kit_choice(kits, start, drift),
{
    let n = kit_order(kits, start).len() as int;
    if n > 0 {
        vstd::arithmetic::div_mod::lemma_mod_add_multiples_vanish(drift, n);
    }
}

impl Bank {
    /// The slot of the kit that `drift` picks from base slot `index`: among the slots
    /// that hold a kit, visited cyclically from `index`, the one `drift` places after
    /// the first; `None` when the bank holds no kit.
    pub fn generate_kit_index(&self, index: u8, drift: usize) -> (r: Option<usize>)
        ensures
            r matches Some(j) ==> kit_choice(self.kits@, index as int, drift as int) == Some(j as int),
            r is None ==> kit_choice(self.kits@, index as int, drift as int) is None,
    {
        let mut order: Vec<usize> = Vec::new();
        let mut k: usize = 0;
        while k < PAD_COUNT
            invariant
                k <= PAD_COUNT,
                order@.len() <= k,
                order@.map_values(|j: usize| j as int) == occupied_from(self.kits@, index as int, k as nat),
            decreases PAD_COUNT - k,
        {
            let j = (index as usize + k) % PAD_COUNT;
            if self.kits[j].is_some() {
                order.push(j);
                assert(order@.map_values(|j: usize| j as int) == occupied_from(self.kits@, index as int, k as nat).push(j as int));
            }
            k = k + 1;
        }
        if order.len() == 0 {
            None
        } else {
            let i = drift % order.len();
            assert(order@.map_values(|j: usize| j as int)[i as int] == order@[i as int] as int);
            Some(order[i])
        }
    }

    /// The kit that `drift` picks from base slot `index`, as `generate_kit_index` says.
    pub fn generate_kit(&self, index: u8, drift: usize) -> (r: Option<&Kit>)
        ensures
            match kit_choice(self.kits@, index as int, drift as int) {
                Some(j) => r is Some && *r->Some_0 == self.kits@[j]->Some_0,
                None => r is None,
            },
    {
        match self.generate_kit_index(index, drift) {
            Some(j) => {
                proof {
                    lemma_kit_choice_occupied(self.kits@, index as int, drift as int);
                }
                self.kits[j].as_ref()
            },
            None => None,
        }
    }
}

} // verus!
