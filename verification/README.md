# angry_surgeon

A grain-based sample mangler: two banks of eight pads, each bank holding kits of
onsets (points in sample files) and recorded phrases. Pads jump to onsets or loop
from them; what is played is recorded step by step, can be cut into a phrase, stored
in a pad's slot and sequenced.

`src/` is the library, verified with Verus:

- `passive`, `pads`, `active`, `handler`: the data of a bank and its sequencer —
  which event each player (pad input, recorder, sequencer) is on, what each clock
  tick does, and what the sample reader must do when a player changes onset.
- `wav`: the RIFF/WAVE header of a sample file and seeks within its PCM data.
- `control`, `knob`, `midi`, `browse`: the MIDI controls — pad gestures, knob
  takeover after shift, the file browser and the clock.
- `touch`: the capacitive touch pads of the hardware build (MPR121 protocol).
- `tui`: what the display shows of each bank.
- `history`: the bounded collections of `heapless` the library keeps.

`app/` is the desktop program around it: MIDI from a raw device, the audio engine
(floating-point grain reading) on the default output, the terminal display, and the
bank and onset files.

`tests/` runs the library on concrete inputs.
