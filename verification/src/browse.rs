//! Moving through lists that wrap around: file listings, onsets of a sample, the
//! oneshot samples, and the clock pulses that make up a step.
use vstd::prelude::*;

verus! {

/// Rows of a file listing on the display; the selected file is in the middle one.
pub const FILE_COUNT: usize = 5;

/// Clock pulses per quarter note.
pub const PPQ: u16 = 24;

/// Steps per quarter note.
pub const STEP_DIV: u16 = 4;

/// The position after `index` in a list of `count`, wrapping to the first.
pub open spec fn next_index(index: int, count: int) -> int {
    (index + 1) % count
}

/// The position before `index` in a list of `count`, wrapping to the last.
pub open spec fn prev_index(index: int, count: int) -> int {
    (index + count - 1) % count
}

/// Moves to the next position of a list of `count`, wrapping to the first.
pub fn increment(index: usize, count: usize) -> (r: usize)
    requires
        index < count,
    ensures
        r == next_index(index as int, count as int),
        r < count,
{
    if index == count - 1 {
        proof {
            vstd::arithmetic::div_mod::lemma_mod_self_0(count as int);
        }
        0
    } else {
        proof {
            vstd::arithmetic::div_mod::lemma_small_mod((index + 1) as nat, count as nat);
        }
        index + 1
    }
}

/// Moves to the previous position of a list of `count`, wrapping to the last.
pub fn decrement(index: usize, count: usize) -> (r: usize)
    requires
        index < count,
    ensures
        r == prev_index(index as int, count as int),
        r < count,
{
    if index == 0 {
        proof {
            vstd::arithmetic::div_mod::lemma_small_mod((count - 1) as nat, count as nat);
        }
        count - 1
    } else {
        proof {
            vstd::arithmetic::div_mod::lemma_small_mod((index - 1) as nat, count as nat);
            vstd::arithmetic::div_mod::lemma_mod_add_multiples_vanish((index - 1) as int, count as int);
        }
        index - 1
    }
}

/// Moving forwards then backwards, or backwards then forwards, comes back to the start.
pub proof fn lemma_increment_decrement(index: int, count: int)
    requires
        0 <= index < count,
    ensures
        prev_index(next_index(index, count), count) == index,
        next_index(prev_index(index, count), count) == index,
{
    if index + 1 < count {
        vstd::arithmetic::div_mod::lemma_small_mod((index + 1) as nat, count as nat);
    } else {
        vstd::arithmetic::div_mod::lemma_mod_self_0(count);
    }
    vstd::arithmetic::div_mod::lemma_small_mod(index as nat, count as nat);
    if index > 0 {
        vstd::arithmetic::div_mod::lemma_mod_add_multiples_vanish(index - 1, count);
        vstd::arithmetic::div_mod::lemma_small_mod((index - 1) as nat, count as nat);
    } else {
        vstd::arithmetic::div_mod::lemma_small_mod((count - 1) as nat, count as nat);
    }
    assert(prev_index(next_index(index, count), count) == index) by {
        if index + 1 < count {
            vstd::arithmetic::div_mod::lemma_small_mod(index as nat, count as nat);
            assert((index + 1 + count - 1) == index + count);
            vstd::arithmetic::div_mod::lemma_mod_add_multiples_vanish(index, count);
        } else {
            assert(next_index(index, count) == 0);
            vstd::arithmetic::div_mod::lemma_small_mod((count - 1) as nat, count as nat);
        }
    }
}

/// The position of list row `row` of the display when `index` is selected among
/// `count` files: the selection in the middle row, neighbours above and below, wrapping.
pub open spec fn listing_row(index: int, row: int, count: int) -> int {
    (index + row - FILE_COUNT / 2) % count
}

/// The positions shown on the rows of a file listing, as `listing_row` says.
pub fn listing(index: usize, count: usize) -> (r: [usize; FILE_COUNT])
    requires
        count > 0,
    ensures
        forall|row: int| 0 <= row < FILE_COUNT ==> #[trigger] r@[row] == listing_row(index as int, row, count as int),
{
    let mut r = [0usize; FILE_COUNT];
    let mut row: usize = 0;
    while row < FILE_COUNT
        invariant
            row <= FILE_COUNT,
            count > 0,
            forall|j: int| 0 <= j < row ==> #[trigger] r@[j] == listing_row(index as int, j, count as int),
        decreases FILE_COUNT - row,
    {
        let base = (index % count) as u128;
        let n = count as u128;
        let v = (base + row as u128 + 2 * n - 2) % n;
        proof {
            let k = index as int;
            let m = count as int;
            let y = row - 2 + 2 * m;
            vstd::arithmetic::div_mod::lemma_add_mod_noop(k, y, m);
            vstd::arithmetic::div_mod::lemma_add_mod_noop(k % m, y, m);
            vstd::arithmetic::div_mod::lemma_mod_twice(k, m);
            assert((k % m + y) % m == (k + y) % m);
            vstd::arithmetic::div_mod::lemma_mod_multiples_vanish(2, k + row - 2, m);
            assert(m * 2 + (k + row - 2) == k + y);
            assert(v == (k % m + y) % m);
        }
        r[row] = v as usize;
        row = row + 1;
    }
    r
}

/// The oneshot after `index` among `count` (`None` after the last, the first when none
/// was playing); unchanged when there are none.
pub fn next_oneshot(index: Option<usize>, count: usize) -> (r: Option<usize>)
    ensures
        count == 0 ==> r == index,
        count > 0 ==> r == match index {
            Some(i) => if i + 1 < count { Some((i + 1) as usize) } else { None },
            None => Some(0usize),
        },
{
    if count == 0 {
        return index;
    }
    match index {
        Some(i) => if i < count - 1 {
            Some(i + 1)
        } else {
            None
        },
        None => Some(0),
    }
}

/// Clock pulses per step.
pub open spec fn pulses_per_step() -> int {
    (PPQ / STEP_DIV) as int
}

/// One clock pulse: a step begins on the first pulse of every step; the pulse count
/// moves on, wrapping after a step's worth.
pub fn clock_pulse(clock: u16) -> (r: (bool, u16))
    requires
        clock < u16::MAX,
    ensures
        r.0 == (clock == 0),
        r.1 == (clock + 1) % pulses_per_step(),
{
    (clock == 0, (clock + 1) % (PPQ / STEP_DIV))
}

/// The oneshot that comes after `index` among `count`: none after the last, the first
/// when none was playing.
pub open spec fn oneshot_after(index: Option<usize>, count: usize) -> Option<usize> {
    match index {
        Some(i) => if i + 1 < count { Some((i + 1) as usize) } else { None },
        None => Some(0usize),
    }
}

/// The oneshot samples of the open directory (the files stay with the caller) and the
/// one playing, if any.
pub struct Oneshots {
    pub count: usize,
    pub index: Option<usize>,
}

impl Oneshots {
    pub open spec fn inv(&self) -> bool {
        self.index matches Some(i) ==> i < self.count
    }

    /// No directory open.
    pub fn new() -> (o: Self)
        ensures
            o.inv(),
            o.count == 0 && o.index is None,
    {
        Oneshots { count: 0, index: None }
    }

    /// A directory of `count` samples opened: none playing.
    pub fn open(&mut self, count: usize)
        ensures
            final(self).inv(),
            final(self).count == count && final(self).index is None,
    {
        self.count = count;
        self.index = None;
    }

    /// The next oneshot plays, as `oneshot_after` says; with none in the directory
    /// nothing changes. Returns whether there are any.
    pub fn next(&mut self) -> (any: bool)
        requires
            old(self).inv(),
        ensures
            final(self).inv(),
            any == (old(self).count > 0),
            final(self).count == old(self).count,
            final(self).index == if any { oneshot_after(old(self).index, old(self).count) } else { old(self).index },
    {
        if self.count == 0 {
            return false;
        }
        self.index = next_oneshot(self.index, self.count);
        true
    }
}

/// Where the tempo comes from: the pulses at the clock input, or the tempo control.
#[derive(Copy, Clone, Debug, PartialEq, Eq, Structural)]
pub enum Source {
    External,
    Internal,
}

/// Pulses closer together than this many microseconds are bounces and are ignored.
pub const PULSE_DEBOUNCE: u32 = 15_000;

/// The clock input: where the tempo comes from and when the last pulse came, in
/// microseconds.
pub struct ClockIn {
    pub source: Source,
    pub last: Option<u32>,
}

impl ClockIn {
    /// No pulse yet; the tempo control sets the tempo.
    pub fn new() -> (c: Self)
        ensures
            c.source == Source::Internal && c.last is None,
    {
        ClockIn { source: Source::Internal, last: None }
    }

    /// A pulse at `now`: the first one is only remembered; a later one that comes more
    /// than the debounce time after the last makes the tempo follow the pulses and
    /// gives the length of a beat, `PPQ` pulses, in microseconds; a bounce changes
    /// nothing.
    pub fn pulse(&mut self, now: u32) -> (beat: Option<u32>)
        requires
            old(self).last matches Some(l) ==> l <= now && (now - l) * PPQ <= u32::MAX,
        ensures
            match old(self).last {
                None => beat is None && final(self).last == Some(now) && final(self).source == old(self).source,
                Some(l) => if now - l > PULSE_DEBOUNCE {
                    &&& beat == Some(((now - l) * PPQ) as u32)
                    &&& final(self).last == Some(now)
                    &&& final(self).source == Source::External
                } else {
                    beat is None && final(self).last == old(self).last && final(self).source == old(self).source
                },
            },
    {
        match self.last {
            None => {
                self.last = Some(now);
                None
            },
            Some(l) => {
                if now - l > PULSE_DEBOUNCE {
                    let beat = (now - l) * (PPQ as u32);
                    self.source = Source::External;
                    self.last = Some(now);
                    Some(beat)
                } else {
                    None
                }
            },
        }
    }
}

} // verus!
