//! MIDI messages as the controls read them, parsed by `midly`.
use vstd::prelude::*;

use midly::live::{LiveEvent, SystemRealtime};
use midly::MidiMessage;

verus! {

/// What a MIDI message says to the controls; every other message is `Other`.
#[derive(Copy, Clone, Debug, PartialEq, Eq, Structural)]
pub enum Midi {
    NoteOff { key: u8 },
    NoteOn { key: u8 },
    Controller { controller: u8, value: u8 },
    /// the pitch wheel's 14-bit position, 8192 in the middle
    PitchBend { bend: u16 },
    TimingClock,
    Stop,
    Other,
}

/// A MIDI message that `midly` could not parse.
#[derive(Copy, Clone, Debug, PartialEq, Eq, Structural)]
pub enum MidiError {
    Invalid,
}

/// What `midly::live::LiveEvent::parse` makes of a message's bytes, read as a `Midi`;
/// `None` where it fails.
pub uninterp spec fn midi_of(message: Seq<u8>) -> Option<Midi>;

/// What the bytes of a message say, for the shapes the controls read: a one-byte
/// system realtime message (status from 0xF8), or a channel message (status from 0x80
/// to 0xEF) with two data bytes below 0x80 after its status; the status's high nibble
/// names the kind, and bytes after those are not read. `None` for any other shape,
/// which this does not describe.
pub open spec fn midi_read(m: Seq<u8>) -> Option<Midi> {
    if m.len() >= 1 && m[0] >= 0xF8 {
        Some(
            if m[0] == 0xF8 {
                Midi::TimingClock
            } else if m[0] == 0xFC {
                Midi::Stop
            } else {
                Midi::Other
            },
        )
    } else if m.len() >= 3 && 0x80 <= m[0] < 0xF0 && m[1] < 0x80 && m[2] < 0x80 {
        let kind = m[0] / 16;
        Some(
            if kind == 0x8 {
                Midi::NoteOff { key: m[1] }
            } else if kind == 0x9 {
                Midi::NoteOn { key: m[1] }
            } else if kind == 0xB {
                Midi::Controller { controller: m[1], value: m[2] }
            } else if kind == 0xE {
                Midi::PitchBend { bend: (m[2] * 128 + m[1]) as u16 }
            } else {
                Midi::Other
            },
        )
    } else {
        None
    }
}

/// What a raw message parses to: nothing without a status byte; as `midi_read` says
/// for the shapes it describes; otherwise `midi_of` of its bytes.
pub open spec fn parsed(message: Seq<u8>) -> Option<Midi> {
    if message.len() == 0 {
        None
    } else {
        match midi_read(message) {
            Some(m) => Some(m),
            None => midi_of(message),
        }
    }
}

/// `midly::live::LiveEvent::parse`, its result told apart into the variants of `Midi`
/// and its error dropped. The contract claims that the result is `midi_of` of the
/// bytes; that a message without a status byte fails; and that the shapes `midi_read`
/// describes parse as it says (a realtime status is read alone; a channel message's
/// data bytes are the bytes below 0x80 after the status, of which note off, note on,
/// aftertouch, controller and pitch bend need two and program change and channel
/// aftertouch one; pitch bend puts the second data byte above the first). What it makes
/// of other shapes (system common messages, truncated or malformed channel messages) is
/// left to `midi_of`.
#[verifier::external_body]
pub(crate) fn parse_live(message: &[u8]) -> (r: Option<Midi>)
    ensures
        r == midi_of(message@),
        message@.len() == 0 ==> r is None,
        midi_read(message@) matches Some(m) ==> r == Some(m),
{
    Some(match LiveEvent::parse(message).ok()? {
        LiveEvent::Midi { message: m, .. } => match m {
            MidiMessage::NoteOff { key, .. } => Midi::NoteOff { key: key.as_int() },
            MidiMessage::NoteOn { key, .. } => Midi::NoteOn { key: key.as_int() },
            MidiMessage::Controller { controller: c, value: v } => Midi::Controller { controller: c.as_int(), value: v.as_int() },
            MidiMessage::PitchBend { bend } => Midi::PitchBend { bend: bend.0.as_int() },
            _ => Midi::Other,
        },
        LiveEvent::Realtime(SystemRealtime::TimingClock) => Midi::TimingClock,
        LiveEvent::Realtime(SystemRealtime::Stop) => Midi::Stop,
        _ => Midi::Other,
    })
}

} // verus!
