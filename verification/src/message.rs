use vstd::prelude::*;

verus! {

/// The MIDI channel messages that the engine routes.
///
/// Channels are stored by index (0 to 15, channel 1 is index 0); notes,
/// velocities, control functions, control values and program numbers are
/// 7-bit data values (0 to 127).
#[derive(Clone, Copy, PartialEq, Eq, Debug, Structural)]
pub enum MidiMessage {
    /// (channel, note, velocity)
    NoteOff(u8, u8, u8),
    /// (channel, note, velocity)
    NoteOn(u8, u8, u8),
    /// (channel, note, velocity)
    PolyphonicKeyPressure(u8, u8, u8),
    /// (channel, control function, control value)
    ControlChange(u8, u8, u8),
    /// (channel, program number)
    ProgramChange(u8, u8),
    /// (channel, velocity)
    ChannelPressure(u8, u8),
}

/// A channel index: 0 to 15.
pub open spec fn is_channel(c: u8) -> bool {
    c < 16
}

/// A 7-bit data value: 0 to 127.
pub open spec fn is_data(d: u8) -> bool {
    d < 128
}

impl MidiMessage {
    /// Every field is in the range that the MIDI standard gives it.
    pub open spec fn wf(self) -> bool {
        match self {
            MidiMessage::NoteOff(c, n, v) => is_channel(c) && is_data(n) && is_data(v),
            MidiMessage::NoteOn(c, n, v) => is_channel(c) && is_data(n) && is_data(v),
            MidiMessage::PolyphonicKeyPressure(c, n, v) => is_channel(c) && is_data(n)
                && is_data(v),
            MidiMessage::ControlChange(c, f, v) => is_channel(c) && is_data(f) && is_data(v),
            MidiMessage::ProgramChange(c, p) => is_channel(c) && is_data(p),
            MidiMessage::ChannelPressure(c, v) => is_channel(c) && is_data(v),
        }
    }

    /// Tells whether every field is in its MIDI range.
    pub fn is_valid(&self) -> (b: bool)
        ensures
            b == self.wf(),
    {
        match *self {
            MidiMessage::NoteOff(c, n, v) => c < 16 && n < 128 && v < 128,
            MidiMessage::NoteOn(c, n, v) => c < 16 && n < 128 && v < 128,
            MidiMessage::PolyphonicKeyPressure(c, n, v) => c < 16 && n < 128 && v < 128,
            MidiMessage::ControlChange(c, f, v) => c < 16 && f < 128 && v < 128,
            MidiMessage::ProgramChange(c, p) => c < 16 && p < 128,
            MidiMessage::ChannelPressure(c, v) => c < 16 && v < 128,
        }
    }
}

/// What the wire bytes `b` decode to, among the messages above.
///
/// A status byte (high bit set) starts the message; its low nibble is the
/// channel and its high nibble the kind. The data bytes that a kind needs must
/// be present and below 0x80; bytes past them are ignored. A note-on with
/// velocity 0 is a note-off. Any other kind, or a malformed message, gives
/// `None`.
pub open spec fn spec_decode(b: Seq<u8>) -> Option<MidiMessage> {
    if b.len() == 0 || b[0] < 0x80 {
        None
    } else {
        let ch = (b[0] % 16) as u8;
        let kind = b[0] / 16;
        let a_ok = b.len() >= 2 && b[1] < 0x80;
        let b_ok = b.len() >= 3 && b[2] < 0x80;
        if kind == 8 && a_ok && b_ok {
            Some(MidiMessage::NoteOff(ch, b[1], b[2]))
        } else if kind == 9 && a_ok && b_ok {
            if b[2] == 0 {
                Some(MidiMessage::NoteOff(ch, b[1], 0))
            } else {
                Some(MidiMessage::NoteOn(ch, b[1], b[2]))
            }
        } else if kind == 10 && a_ok && b_ok {
            Some(MidiMessage::PolyphonicKeyPressure(ch, b[1], b[2]))
        } else if kind == 11 && a_ok && b_ok {
            Some(MidiMessage::ControlChange(ch, b[1], b[2]))
        } else if kind == 12 && a_ok {
            Some(MidiMessage::ProgramChange(ch, b[1]))
        } else if kind == 13 && a_ok {
            Some(MidiMessage::ChannelPressure(ch, b[1]))
        } else {
            None
        }
    }
}

/// Whatever decodes is a well-formed message.
pub proof fn lemma_decoded_is_wf(b: Seq<u8>)
    ensures
        spec_decode(b) matches Some(m) ==> m.wf(),
{
}

} // verus!

verus! {

/// Decoding the three bytes of a control change gives that control change
/// back.
pub proof fn lemma_control_change_round_trip(channel: u8, function: u8, value: u8)
    requires
        channel < 16,
        function < 128,
        value < 128,
    ensures
        spec_decode(seq![(0xB0 + channel) as u8, function, value]) == Some(
            MidiMessage::ControlChange(channel, function, value),
        ),
{
    let b = seq![(0xB0 + channel) as u8, function, value];
    assert(b[0] / 16 == 11 && b[0] % 16 == channel);
}

} // verus!
