//! A grain-based sample mangler: banks of kits of onsets, recorded phrases and
//! phrase sequences, driven by pad input.
use vstd::prelude::*;

pub mod active;
pub mod browse;
pub mod control;
pub mod handler;
pub mod knob;
pub mod midi;
pub mod history;
pub mod pads;
pub mod passive;
pub mod touch;
pub mod tui;
pub mod wav;

pub use pads::Mod;
pub use wav::{parse_wav, WavInfo};
pub use passive::{Event, Onset, Rd, Wav};

verus! {

/// Pads per bank; also kits per bank and phrases per bank.
pub const PAD_COUNT: usize = 8;
/// Steps a recorded phrase can hold.
pub const STEP_COUNT: usize = 128;
/// Phrase indices a sequence can hold.
pub const PHRASE_COUNT: usize = 64;
/// Frames in one grain of audio output.
pub const GRAIN_LEN: usize = 512;

/// Why loading or reading a sample failed.
#[derive(Debug)]
pub enum Error<E> {
    /// the file is not a 16-bit mono integer PCM wav
    BadFormat,
    /// the file ended before the header was complete
    DataNotFound,
    /// the file handler failed
    Other(E),
}

/// What was appended to `a` to make `a + x` is `x`.
pub broadcast proof fn lemma_appended<T>(a: Seq<T>, x: Seq<T>)
    ensures
        #[trigger] (a + x).subrange(a.len() as int, (a + x).len() as int) == x,
{
    assert((a + x).subrange(a.len() as int, (a + x).len() as int) =~= x);
}

} // verus!
