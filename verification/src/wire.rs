use vstd::prelude::*;

use crate::message::MidiMessage::{
    ChannelPressure, ControlChange, NoteOff, NoteOn, PolyphonicKeyPressure, ProgramChange,
};
use crate::message::{spec_decode, MidiMessage as M};
use wmidi::{Channel, MidiMessage as W, U7};
use core::convert::TryFrom;

verus! {

/// Decodes wire bytes with `wmidi::MidiMessage::try_from` (reading the channel
/// with `wmidi::MidiMessage::channel`), keeping the six channel-message kinds
/// that the engine routes. The contract claims that `wmidi` decodes exactly as
/// `spec_decode` says: on an error, and on any other kind of message, the
/// result is `None`.
#[verifier::external_body]
pub(crate) fn wmidi_decode(bytes: &[u8]) -> (res: Option<M>)
    ensures
        res == spec_decode(bytes@),
{
    let m = W::try_from(bytes).ok()?;
    let c = m.channel()?.index();
    Some(match m {
        W::NoteOff(_, n, v) => NoteOff(c, n.into(), v.into()),
        W::NoteOn(_, n, v) => NoteOn(c, n.into(), v.into()),
        W::PolyphonicKeyPressure(_, n, v) => PolyphonicKeyPressure(c, n.into(), v.into()),
        W::ControlChange(_, f, v) => ControlChange(c, f.into(), v.into()),
        W::ProgramChange(_, p) => ProgramChange(c, p.into()),
        W::ChannelPressure(_, v) => ChannelPressure(c, v.into()),
        _ => return None,
    })
}

/// Encodes a control-change message with `wmidi::MidiMessage::to_vec`, the
/// message being built with `wmidi::Channel::from_index` and
/// `wmidi::U7::try_from`. The contract claims the three wire bytes: status
/// 0xB0 plus the channel index, then the control function, then the value.
#[verifier::external_body]
pub(crate) fn wmidi_encode_control_change(channel: u8, function: u8, value: u8) -> (res: Vec<u8>)
    requires
        channel < 16,
        function < 128,
        value < 128,
    ensures
        res@ == seq![(0xB0 + channel) as u8, function, value],
{
    let f = U7::try_from(function).unwrap();
    W::ControlChange(Channel::from_index(channel).unwrap(), f.into(), U7::try_from(value).unwrap())
        .to_vec()
}

} // verus!
