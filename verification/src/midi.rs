use rustysynth::Synthesizer;
use std::time::Duration;
use vstd::prelude::*;

verus! {

#[verifier::external_type_specification]
#[verifier::external_body]
pub struct ExSynthesizer(Synthesizer);

/// The synthesizer after it has handled the MIDI message `command` with data bytes
/// `data1` and `data2` on `channel`, starting from the state `synth`.
pub uninterp spec fn synth_after_message(
    synth: Synthesizer,
    channel: i32,
    command: i32,
    data1: i32,
    data2: i32,
) -> Synthesizer;

/// The messages whose handling does no arithmetic that overflows: a bank selection
/// (controller 0) adds 128 to its value on the percussion channel, a data entry
/// (controller 6) subtracts 64 from its value, and a pitch bend subtracts 8192 from
/// `data1 | (data2 << 7)`. Every other message, a note with any key or velocity
/// among them, is handled without such arithmetic on its data.
pub open spec fn synth_accepts(command: i32, data1: i32, data2: i32) -> bool {
    &&& (command == 0xB0 && data1 == 0x00) ==> data2 <= i32::MAX - 128
    &&& (command == 0xB0 && data1 == 0x06) ==> data2 >= i32::MIN + 64
    &&& command == 0xE0 ==> (data1 | (data2 << 7i32)) >= i32::MIN + 8192
}

/// `rustysynth::Synthesizer::process_midi_message` handles one MIDI message on the
/// synthesizer. Its new state depends only on its old state and the four values
/// (the method reads no clock and draws no random number); that state is named
/// `synth_after_message` and not described further. The inputs on which the
/// method's arithmetic would overflow are left out (see `synth_accepts`).
pub assume_specification[ Synthesizer::process_midi_message ](
    synth: &mut Synthesizer,
    channel: i32,
    command: i32,
    data1: i32,
    data2: i32,
)
    requires
        synth_accepts(command, data1, data2),
    ensures
        *final(synth) == synth_after_message(*old(synth), channel, command, data1, data2),
;

/// `Duration` is `Copy`, so its `clone` returns a value equal to the original.
pub assume_specification[ <Duration as Clone>::clone ](d: &Duration) -> (r: Duration)
    ensures
        r == *d,
;

#[derive(Clone)]
pub struct MidiMessage {
    pub channel: i32,
    pub command: i32,
    pub data1: i32,
    pub data2: i32,
}

#[derive(Clone)]
pub struct MidiMessageTimed {
    /// The midi message
    pub midi_message: MidiMessage,
    /// How long until the next midi message
    pub duration: Duration,
}

impl MidiMessage {
    /// Construct a note on event message
    pub fn note_on(channel: i32, key: i32, velocity: i32) -> (r: Self)
        ensures
            r.channel == channel,
            r.command == 0x90,
            r.data1 == key,
            r.data2 == velocity,
    {
        MidiMessage { channel, command: 0x90, data1: key, data2: velocity }
    }

    /// Constructs a message that stops all the notes in the specified channel
    /// If `immediate` then notes will stop without the release sound
    pub fn note_off_channel(channel: i32, immediate: bool) -> (r: Self)
        ensures
            r.channel == channel,
            r.command == 0xB0,
            r.data1 == (if immediate {
                0x78int
            } else {
                0x7Bint
            }),
            r.data2 == 0,
    {
        MidiMessage {
            channel,
            command: 0xB0,
            data1: if immediate {
                0x78
            } else {
                0x7B
            },
            data2: 0,
        }
    }

    /// Sends this message to `synthesizer`.
    pub fn process_on_synth(&self, synthesizer: &mut Synthesizer)
        requires
            synth_accepts(self.command, self.data1, self.data2),
        ensures
            *final(synthesizer) == synth_after_message(
                *old(synthesizer),
                self.channel,
                self.command,
                self.data1,
                self.data2,
            ),
    {
        synthesizer.process_midi_message(self.channel, self.command, self.data1, self.data2);
    }
}

impl MidiMessageTimed {
    pub fn new(midi_message: MidiMessage, duration: Duration) -> (r: Self)
        ensures
            r.midi_message == midi_message,
            r.duration == duration,
    {
        MidiMessageTimed { midi_message, duration }
    }
}

} // verus!
