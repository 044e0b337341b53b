//! Read-only data: sample descriptions, onsets, events and recorded phrases.
use vstd::prelude::*;

use crate::STEP_COUNT;

verus! {

/// Onset data that accompanies a sample file.
#[derive(Clone, Debug)]
pub struct Rd {
    /// length of the sample in steps, if it is a loop
    pub steps: Option<u16>,
    /// onset positions, in frames
    pub onsets: Vec<u64>,
}

impl Default for Rd {
    /// No step count and a single onset at the start of the sample.
    fn default() -> (r: Self)
        ensures
            r.steps is None,
            r.onsets@ == seq![0u64],
    {
        let mut onsets = Vec::new();
        onsets.push(0);
        Self { steps: None, onsets }
    }
}

/// A sample file and its length in steps, if it is a loop.
#[derive(Clone, Debug)]
pub struct Wav {
    pub steps: Option<u16>,
    pub path: String,
}

/// A sample and the frame at which playback starts.
#[derive(Clone, Debug)]
pub struct Onset {
    pub wav: Wav,
    pub start: u64,
}

/// What a pad press asks for.
#[derive(Copy, Clone, PartialEq, Eq, Debug, Structural)]
pub enum Event {
    /// play in time with the clock
    Sync,
    /// jump to the onset of pad `index`
    Hold { index: u8 },
    /// loop `len` steps from the onset of pad `index`
    Loop { index: u8, len: u16 },
}

/// One recorded step: the event that began on it, if any, and the direction.
#[derive(Copy, Clone, Debug, PartialEq, Eq, Structural)]
pub struct Step {
    pub event: Option<Event>,
    pub reverse: bool,
}

impl Default for Step {
    /// No event, forward.
    fn default() -> (s: Self)
        ensures
            s.event is None,
            !s.reverse,
    {
        Step { event: None, reverse: false }
    }
}

/// A recorded phrase: the **last** `len` of its steps are played.
#[derive(Clone, Debug)]
pub struct Phrase {
    pub steps: [Step; STEP_COUNT],
    pub len: u16,
}

/// Where in `steps` the step `step_index` (shifted by `drift`) of a phrase of length
/// `len` lies: the phrase occupies the last `len` places.
pub open spec fn phrase_slot(len: int, step_index: int, drift: int) -> int {
    STEP_COUNT - len + (step_index + drift) % len
}

impl Phrase {
    /// A well-formed phrase plays at least one step and no more than it holds.
    pub open spec fn wf(&self) -> bool {
        0 < self.len <= STEP_COUNT
    }

    /// The step played at `step_index`, shifted by `drift` steps, wrapping within the phrase.
    pub fn generate_step(&self, step_index: u16, drift: usize) -> (s: Step)
        requires
            self.wf(),
            step_index + drift <= usize::MAX,
        ensures
            STEP_COUNT - self.len <= phrase_slot(self.len as int, step_index as int, drift as int)
                < STEP_COUNT,
            s == self.steps@[phrase_slot(self.len as int, step_index as int, drift as int)],
    {
        let len = self.len as usize;
        let index = STEP_COUNT - len + (step_index as usize + drift) % len;
        self.steps[index]
    }
}

} // verus!
