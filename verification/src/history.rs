//! The fixed-capacity collections of `heapless` that the banks keep: the histories of
//! recorded steps and of sequenced phrase slots (`HistoryBuffer`), and the pads held
//! (`Vec`) and the sequence being built (`Deque`) that the display shows; and what
//! their methods do to their contents.
use vstd::prelude::*;

use heapless::{Deque, HistoryBuffer};

use crate::passive::Step;
use crate::{PAD_COUNT, PHRASE_COUNT, STEP_COUNT};

verus! {

#[verifier::external_type_specification]
#[verifier::external_body]
#[verifier::reject_recursive_types(T)]
pub struct ExHistoryBuffer<T, const N: usize>(HistoryBuffer<T, N>);

/// The steps held by a step history, oldest first.
pub uninterp spec fn step_history(h: HistoryBuffer<Step, STEP_COUNT>) -> Seq<Step>;

/// The phrase indices held by a phrase history, oldest first.
pub uninterp spec fn phrase_history(h: HistoryBuffer<u8, PHRASE_COUNT>) -> Seq<u8>;

/// What a write of `x` does to the contents `s` of a history of depth `n`: `x` becomes
/// the newest element and, once `n` elements are held, the oldest one is dropped.
pub open spec fn history_write<T>(s: Seq<T>, x: T, n: nat) -> Seq<T> {
    if s.len() < n {
        s.push(x)
    } else {
        s.drop_first().push(x)
    }
}

/// `HistoryBuffer::new`: an empty step history.
#[verifier::external_body]
pub(crate) fn new_step_history() -> (h: HistoryBuffer<Step, STEP_COUNT>)
    ensures
        step_history(h) == Seq::<Step>::empty(),
{
    HistoryBuffer::new()
}

/// `HistoryBuffer::write` on a step history: `s` becomes the newest step, dropping
/// the oldest one when the history is full.
#[verifier::external_body]
pub(crate) fn write_step(h: &mut HistoryBuffer<Step, STEP_COUNT>, s: Step)
    requires
        step_history(*old(h)).len() <= STEP_COUNT,
    ensures
        step_history(*final(h)) == history_write(step_history(*old(h)), s, STEP_COUNT as nat),
{
    h.write(s)
}

/// `HistoryBuffer::len` on a step history: the number of steps held, at most its depth.
#[verifier::external_body]
pub(crate) fn step_history_len(h: &HistoryBuffer<Step, STEP_COUNT>) -> (r: usize)
    ensures
        r == step_history(*h).len(),
        r <= STEP_COUNT,
{
    h.len()
}

/// `HistoryBuffer::as_slices` on a step history: two runs that together hold the
/// steps, oldest first.
#[verifier::external_body]
pub(crate) fn step_history_slices(h: &HistoryBuffer<Step, STEP_COUNT>) -> (r: (Vec<Step>, Vec<Step>))
    ensures
        r.0@ + r.1@ == step_history(*h),
{
    let (front, back) = h.as_slices();
    (front.to_vec(), back.to_vec())
}

/// `HistoryBuffer::new`: an empty phrase history.
#[verifier::external_body]
pub(crate) fn new_phrase_history() -> (h: HistoryBuffer<u8, PHRASE_COUNT>)
    ensures
        phrase_history(h) == Seq::<u8>::empty(),
{
    HistoryBuffer::new()
}

/// `HistoryBuffer::write` on a phrase history: `x` becomes the newest index, dropping
/// the oldest one when the history is full.
#[verifier::external_body]
pub(crate) fn write_phrase(h: &mut HistoryBuffer<u8, PHRASE_COUNT>, x: u8)
    requires
        phrase_history(*old(h)).len() <= PHRASE_COUNT,
    ensures
        phrase_history(*final(h)) == history_write(phrase_history(*old(h)), x, PHRASE_COUNT as nat),
{
    h.write(x)
}

/// `HistoryBuffer::clear` on a phrase history: it holds nothing afterwards.
#[verifier::external_body]
pub(crate) fn clear_phrases(h: &mut HistoryBuffer<u8, PHRASE_COUNT>)
    ensures
        phrase_history(*final(h)) == Seq::<u8>::empty(),
{
    h.clear()
}

/// `HistoryBuffer::oldest_ordered` on a phrase history: its indices, oldest first, at
/// most its depth of them.
#[verifier::external_body]
pub(crate) fn phrases_oldest_first(h: &HistoryBuffer<u8, PHRASE_COUNT>) -> (r: Vec<u8>)
    ensures
        r@ == phrase_history(*h),
        r@.len() <= PHRASE_COUNT,
{
    h.oldest_ordered().copied().collect()
}

#[verifier::external_type_specification]
#[verifier::external_body]
#[verifier::reject_recursive_types(T)]
pub struct ExHeaplessVec<T, const N: usize>(heapless::Vec<T, N>);

#[verifier::external_type_specification]
#[verifier::external_body]
#[verifier::reject_recursive_types(T)]
pub struct ExDeque<T, const N: usize>(Deque<T, N>);

/// The pads held, in order of pressing.
pub uninterp spec fn held_pads(v: heapless::Vec<u8, PAD_COUNT>) -> Seq<u8>;

/// The phrase slots of a sequence being built, in order.
pub uninterp spec fn pool_slots(d: Deque<u8, PHRASE_COUNT>) -> Seq<u8>;

/// What appending `x` does to the contents `s` of a collection of capacity `n`: it
/// is appended, unless the collection is full.
pub open spec fn bounded_push<T>(s: Seq<T>, x: T, n: nat) -> Seq<T> {
    if s.len() < n {
        s.push(x)
    } else {
        s
    }
}

/// The elements of `s` other than `x`, in order.
pub open spec fn without(s: Seq<u8>, x: u8) -> Seq<u8>
    decreases s.len(),
{
    if s.len() == 0 {
        s
    } else if s.last() == x {
        without(s.drop_last(), x)
    } else {
        without(s.drop_last(), x).push(s.last())
    }
}

/// Dropping what `s` does not hold leaves `s`.
pub proof fn lemma_without_absent(s: Seq<u8>, x: u8)
    requires
        !s.contains(x),
    ensures
        without(s, x) == s,
    decreases s.len(),
{
    if s.len() > 0 {
        assert(!s.drop_last().contains(x)) by {
            if s.drop_last().contains(x) {
                let k = choose|k: int| 0 <= k < s.drop_last().len() && s.drop_last()[k] == x;
                assert(s[k] == x);
            }
        }
        lemma_without_absent(s.drop_last(), x);
        assert(s.drop_last().push(s.last()) == s);
    }
}

/// A pad pressed and released again, not held before, leaves the pads held as they were.
pub proof fn lemma_press_release(s: Seq<u8>, x: u8)
    requires
        !s.contains(x),
    ensures
        without(s.push(x), x) == s,
{
    assert(s.push(x).drop_last() == s);
    lemma_without_absent(s, x);
}

/// What `without` keeps of `s` is in `s`.
pub proof fn lemma_without_kept(s: Seq<u8>, x: u8, j: int)
    requires
        0 <= j < without(s, x).len(),
    ensures
        s.contains(without(s, x)[j]),
        without(s, x)[j] != x,
    decreases s.len(),
{
    if s.len() > 0 {
        let r = without(s.drop_last(), x);
        if j < r.len() {
            lemma_without_kept(s.drop_last(), x, j);
            let k = choose|k: int| 0 <= k < s.drop_last().len() && s.drop_last()[k] == r[j];
            assert(s[k] == without(s, x)[j]);
        } else {
            assert(s[s.len() - 1] == without(s, x)[j]);
        }
    }
}

/// `heapless::Vec::new`: no pads held.
#[verifier::external_body]
pub(crate) fn new_held() -> (v: heapless::Vec<u8, PAD_COUNT>)
    ensures
        held_pads(v) == Seq::<u8>::empty(),
{
    heapless::Vec::new()
}

/// `heapless::Vec::push`: `x` is appended unless the collection is full.
#[verifier::external_body]
pub(crate) fn push_held(v: &mut heapless::Vec<u8, PAD_COUNT>, x: u8)
    ensures
        held_pads(*final(v)) == bounded_push(held_pads(*old(v)), x, PAD_COUNT as nat),
{
    let _ = v.push(x);
}

/// Whether `a` differs from `b`.
pub(crate) fn differs(a: &u8, b: u8) -> (r: bool)
    ensures
        r == (*a != b),
{
    *a != b
}

/// `heapless::Vec::retain`: the held pads other than `x` are kept, in order.
#[verifier::external_body]
pub(crate) fn release_held(v: &mut heapless::Vec<u8, PAD_COUNT>, x: u8)
    ensures
        held_pads(*final(v)) == without(held_pads(*old(v)), x),
{
    v.retain(|p| differs(p, x))
}

/// `heapless::Vec::as_slice`: the held pads, at most the capacity of them.
#[verifier::external_body]
pub(crate) fn held_items(v: &heapless::Vec<u8, PAD_COUNT>) -> (r: Vec<u8>)
    ensures
        r@ == held_pads(*v),
        r@.len() <= PAD_COUNT,
{
    v.as_slice().to_vec()
}

/// `heapless::Deque::new`: an empty sequence.
#[verifier::external_body]
pub(crate) fn new_pool() -> (d: Deque<u8, PHRASE_COUNT>)
    ensures
        pool_slots(d) == Seq::<u8>::empty(),
{
    Deque::new()
}

/// `heapless::Deque::push_back`: `x` is appended unless the deque is full.
#[verifier::external_body]
pub(crate) fn push_pool_slot(d: &mut Deque<u8, PHRASE_COUNT>, x: u8)
    ensures
        pool_slots(*final(d)) == bounded_push(pool_slots(*old(d)), x, PHRASE_COUNT as nat),
{
    let _ = d.push_back(x);
}

/// `heapless::Deque::clear`: the deque is emptied.
#[verifier::external_body]
pub(crate) fn clear_pool_slots(d: &mut Deque<u8, PHRASE_COUNT>)
    ensures
        pool_slots(*final(d)) == Seq::<u8>::empty(),
{
    d.clear()
}

/// `heapless::Deque::iter`: the slots of the deque, front to back.
#[verifier::external_body]
pub(crate) fn pool_items(d: &Deque<u8, PHRASE_COUNT>) -> (r: Vec<u8>)
    ensures
        r@ == pool_slots(*d),
{
    d.iter().copied().collect()
}

} // verus!
