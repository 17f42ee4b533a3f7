//! Channel events.
//!
//! The high half of the status byte names the message, the low half the
//! channel. Data bytes are below 128. Controller numbers from 120 on are the
//! channel-mode messages, each with its own rule for the second byte.

use vstd::prelude::*;
use crate::error::ErrorKind;
use crate::event::{Action, MidiEvent, MidiEventKind};
use crate::read::cursor::{expect_u8, lemma_read_u7_extends, read_u7, read_u8, spec_read_u7};

verus! {

/// Taking the byte of a local-control message: 0 disconnects, 127 reconnects,
/// any other byte is `Invalid`.
pub open spec fn spec_read_action(s: Seq<u8>) -> Result<(Action, Seq<u8>), ErrorKind> {
    if s.len() < 1 {
        Err(ErrorKind::Fatal)
    } else if s[0] == 0x00 {
        Ok((Action::Disconnect, s.skip(1)))
    } else if s[0] == 0x7f {
        Ok((Action::Reconnect, s.skip(1)))
    } else {
        Err(ErrorKind::Invalid)
    }
}

/// Taking two data bytes, the first checked before the second is looked for.
pub open spec fn spec_read_u7_pair(s: Seq<u8>) -> Result<((u8, u8), Seq<u8>), ErrorKind> {
    match spec_read_u7(s) {
        Err(kind) => Err(kind),
        Ok((first, rest)) => match spec_read_u7(rest) {
            Err(kind) => Err(kind),
            Ok((second, rest)) => Ok(((first, second), rest)),
        },
    }
}

/// The message that a controller number and the byte after it spell, if that
/// byte is one the number admits.
pub open spec fn controller_message(number: u8, value: u8) -> Option<MidiEventKind>
    recommends
        number <= 0x7f,
{
    if number < 0x78 {
        if value <= 0x7f {
            Some(MidiEventKind::ControllerChange { number, value })
        } else {
            None
        }
    } else if number == 0x7a {
        if value == 0x00 {
            Some(MidiEventKind::LocalControl(Action::Disconnect))
        } else if value == 0x7f {
            Some(MidiEventKind::LocalControl(Action::Reconnect))
        } else {
            None
        }
    } else if number == 0x7e {
        Some(MidiEventKind::MonoModeOn(value))
    } else if value != 0x00 {
        None
    } else if number == 0x78 {
        Some(MidiEventKind::AllSoundOff)
    } else if number == 0x79 {
        Some(MidiEventKind::ResetAllControllers)
    } else if number == 0x7b {
        Some(MidiEventKind::AllNotesOff)
    } else if number == 0x7c {
        Some(MidiEventKind::OmniModeOff)
    } else if number == 0x7d {
        Some(MidiEventKind::OmniModeOn)
    } else {
        Some(MidiEventKind::PolyModeOn)
    }
}

/// Taking the two bytes of a controller message.
pub open spec fn spec_read_controller(s: Seq<u8>) -> Result<(MidiEventKind, Seq<u8>), ErrorKind> {
    match spec_read_u7(s) {
        Err(kind) => Err(kind),
        Ok((number, rest)) => {
            if rest.len() < 1 {
                Err(ErrorKind::Fatal)
            } else {
                match controller_message(number, rest[0]) {
                    None => Err(ErrorKind::Invalid),
                    Some(message) => Ok((message, rest.skip(1))),
                }
            }
        },
    }
}

/// Taking the data bytes of the message that `status`, the high half of a
/// status byte, names. `Invalid` for a half that names no channel message.
pub open spec fn spec_read_midi_kind(s: Seq<u8>, status: int) -> Result<
    (MidiEventKind, Seq<u8>),
    ErrorKind,
> {
    if status == 0x8 || status == 0x9 || status == 0xa || status == 0xe {
        match spec_read_u7_pair(s) {
            Err(kind) => Err(kind),
            Ok(((first, second), rest)) => Ok(
                (
                    if status == 0x8 {
                        MidiEventKind::NoteOff { key: first, velocity: second }
                    } else if status == 0x9 {
                        MidiEventKind::NoteOn { key: first, velocity: second }
                    } else if status == 0xa {
                        MidiEventKind::PolyphonicKeyPressure { key: first, velocity: second }
                    } else {
                        MidiEventKind::PitchBend { lsb: first, msb: second }
                    },
                    rest,
                ),
            ),
        }
    } else if status == 0xb {
        spec_read_controller(s)
    } else if status == 0xc || status == 0xd {
        match spec_read_u7(s) {
            Err(kind) => Err(kind),
            Ok((value, rest)) => Ok(
                (
                    if status == 0xc {
                        MidiEventKind::ProgramChange(value)
                    } else {
                        MidiEventKind::ChannelKeyPressure(value)
                    },
                    rest,
                ),
            ),
        }
    } else {
        Err(ErrorKind::Invalid)
    }
}

/// Taking the data bytes of a channel event whose status byte was read.
pub open spec fn spec_read_midi_event(s: Seq<u8>, status_byte: u8) -> Result<
    (MidiEvent, Seq<u8>),
    ErrorKind,
> {
    match spec_read_midi_kind(s, status_byte as int / 0x10) {
        Err(kind) => Err(kind),
        Ok((kind, rest)) => Ok((MidiEvent { channel: (status_byte % 0x10) as u8, kind }, rest)),
    }
}

/// Takes the byte of a local-control message.
pub fn read_action(data: &mut &[u8]) -> (r: Result<Action, ErrorKind>)
    ensures
        match spec_read_action(old(data)@) {
            Ok((action, rest)) => r == Ok::<Action, ErrorKind>(action) && final(data)@ == rest,
            Err(kind) => r == Err::<Action, ErrorKind>(kind),
        },
{
    let byte = read_u8(data)?;
    let action = match byte {
        0x00 => Action::Disconnect,
        0x7f => Action::Reconnect,
        _ => return Err(ErrorKind::Invalid),
    };
    Ok(action)
}

/// Takes the data bytes of a channel event off the cursor. A status byte
/// that names no channel message is refused as `Invalid`.
pub fn read_midi_event(bytes: &mut &[u8], status_byte: u8) -> (r: Result<MidiEvent, ErrorKind>)
    ensures
        match spec_read_midi_event(old(bytes)@, status_byte) {
            Ok((event, rest)) => r == Ok::<MidiEvent, ErrorKind>(event) && final(bytes)@ == rest,
            Err(kind) => r == Err::<MidiEvent, ErrorKind>(kind),
        },
{
    let channel: u8 = status_byte & 0x0f;
    let status: u8 = status_byte & 0xf0;
    proof {
        assert(status_byte & 0x0f == status_byte % 0x10) by (bit_vector);
        assert(status_byte & 0xf0 == (status_byte / 0x10) * 0x10) by (bit_vector);
    }
    let kind = match status {
        0x80 => {
            let key = read_u7(bytes)?;
            let velocity = read_u7(bytes)?;
            MidiEventKind::NoteOff { key, velocity }
        },
        0x90 => {
            let key = read_u7(bytes)?;
            let velocity = read_u7(bytes)?;
            MidiEventKind::NoteOn { key, velocity }
        },
        0xa0 => {
            let key = read_u7(bytes)?;
            let velocity = read_u7(bytes)?;
            MidiEventKind::PolyphonicKeyPressure { key, velocity }
        },
        0xb0 => {
            let number = read_u7(bytes)?;
            match number {
                0x78 => {
                    expect_u8(bytes, 0)?;
                    MidiEventKind::AllSoundOff
                },
                0x79 => {
                    expect_u8(bytes, 0)?;
                    MidiEventKind::ResetAllControllers
                },
                0x7a => MidiEventKind::LocalControl(read_action(bytes)?),
                0x7b => {
                    expect_u8(bytes, 0)?;
                    MidiEventKind::AllNotesOff
                },
                0x7c => {
                    expect_u8(bytes, 0)?;
                    MidiEventKind::OmniModeOff
                },
                0x7d => {
                    expect_u8(bytes, 0)?;
                    MidiEventKind::OmniModeOn
                },
                0x7e => MidiEventKind::MonoModeOn(read_u8(bytes)?),
                0x7f => {
                    expect_u8(bytes, 0)?;
                    MidiEventKind::PolyModeOn
                },
                _ => {
                    let value = read_u7(bytes)?;
                    MidiEventKind::ControllerChange { number, value }
                },
            }
        },
        0xc0 => MidiEventKind::ProgramChange(read_u7(bytes)?),
        0xd0 => MidiEventKind::ChannelKeyPressure(read_u7(bytes)?),
        0xe0 => {
            let lsb = read_u7(bytes)?;
            let msb = read_u7(bytes)?;
            MidiEventKind::PitchBend { lsb, msb }
        },
        _ => {
            return Err(ErrorKind::Invalid);
        },
    };
    Ok(MidiEvent { channel, kind })
}

/// Taking the data bytes of a channel event looks at no byte after them.
pub proof fn lemma_read_midi_event_extends(a: Seq<u8>, b: Seq<u8>, status_byte: u8)
    ensures
        spec_read_midi_event(a, status_byte) matches Ok((event, rest)) ==> spec_read_midi_event(
            a + b,
            status_byte,
        ) == Ok::<(MidiEvent, Seq<u8>), ErrorKind>((event, rest + b)),
{
    lemma_read_u7_extends(a, b);
    if let Ok((_, rest)) = spec_read_u7(a) {
        lemma_read_u7_extends(rest, b);
        if rest.len() >= 1 {
            assert((rest + b).skip(1) =~= rest.skip(1) + b);
        }
    }
}

} // verus!
