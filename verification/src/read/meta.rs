//! Meta events.
//!
//! After the type byte, a meta event either has a payload whose length the
//! format fixes, announced by a length byte that must name that length, or a
//! span measured by a variable-length quantity.

use vstd::prelude::*;
use crate::error::ErrorKind;
use crate::event::{MetaEvent, MetaEventView};
use crate::read::cursor::{be16, be24, expect_u8, read_u16, read_u24, read_u8};
use crate::read::vlq::{lemma_read_data_extends, read_data, read_text, spec_read_data};

verus! {

/// The payload length that the format fixes for a meta type, for the types
/// that have one.
pub open spec fn meta_fixed_len(meta_type: u8) -> Option<int> {
    if meta_type == 0x00 {
        Some(2)
    } else if meta_type == 0x20 {
        Some(1)
    } else if meta_type == 0x2f {
        Some(0)
    } else if meta_type == 0x51 {
        Some(3)
    } else if meta_type == 0x54 {
        Some(5)
    } else if meta_type == 0x58 {
        Some(4)
    } else if meta_type == 0x59 {
        Some(2)
    } else {
        None
    }
}

/// The event that a payload of fixed length spells.
pub open spec fn meta_fixed_event(meta_type: u8, payload: Seq<u8>) -> MetaEventView
    recommends
        meta_fixed_len(meta_type) == Some(payload.len() as int),
{
    if meta_type == 0x00 {
        MetaEventView::SequenceNumber(be16(payload[0], payload[1]))
    } else if meta_type == 0x20 {
        MetaEventView::ChannelPrefix(payload[0])
    } else if meta_type == 0x2f {
        MetaEventView::EndOfTrack
    } else if meta_type == 0x51 {
        MetaEventView::SetTempo(be24(payload[0], payload[1], payload[2]))
    } else if meta_type == 0x54 {
        MetaEventView::SMTPEOffset {
            hh: payload[0],
            mm: payload[1],
            ss: payload[2],
            fr: payload[3],
            ff: payload[4],
        }
    } else if meta_type == 0x58 {
        MetaEventView::TimeSignature {
            nn: payload[0],
            dd: payload[1],
            cc: payload[2],
            bb: payload[3],
        }
    } else {
        MetaEventView::KeySignature { sf: payload[0], mi: payload[1] }
    }
}

/// The event that a measured span spells: a text for the types 1 to 7, data
/// for a sequencer for type 127, and an unknown event that keeps its type for
/// every other.
pub open spec fn meta_sized_event(meta_type: u8, data: Seq<u8>) -> MetaEventView
    recommends
        meta_fixed_len(meta_type) is None,
{
    if meta_type == 0x01 {
        MetaEventView::Text(data)
    } else if meta_type == 0x02 {
        MetaEventView::CopyrightNotice(data)
    } else if meta_type == 0x03 {
        MetaEventView::Name(data)
    } else if meta_type == 0x04 {
        MetaEventView::InstrumentName(data)
    } else if meta_type == 0x05 {
        MetaEventView::Lyric(data)
    } else if meta_type == 0x06 {
        MetaEventView::Marker(data)
    } else if meta_type == 0x07 {
        MetaEventView::CuePoint(data)
    } else if meta_type == 0x7f {
        MetaEventView::SequencerSpecific(data)
    } else {
        MetaEventView::Unknown { meta_type, data }
    }
}

/// Taking a meta event, from its type byte on. `Fatal` when the buffer ends
/// inside the event, `Invalid` when the length byte of a fixed payload names
/// another length or the quantity that measures a span is too long.
pub open spec fn spec_read_meta_event(s: Seq<u8>) -> Result<(MetaEventView, Seq<u8>), ErrorKind> {
    if s.len() < 1 {
        Err(ErrorKind::Fatal)
    } else {
        match meta_fixed_len(s[0]) {
            Some(len) => {
                if s.len() < 2 {
                    Err(ErrorKind::Fatal)
                } else if s[1] != len {
                    Err(ErrorKind::Invalid)
                } else if s.len() < 2 + len {
                    Err(ErrorKind::Fatal)
                } else {
                    Ok((meta_fixed_event(s[0], s.subrange(2, 2 + len)), s.skip(2 + len)))
                }
            },
            None => match spec_read_data(s.skip(1)) {
                Err(kind) => Err(kind),
                Ok((data, rest)) => Ok((meta_sized_event(s[0], data), rest)),
            },
        }
    }
}

/// Takes a meta event off the cursor, which stands on the type byte.
pub fn read_meta_event<'a>(bytes: &mut &'a [u8]) -> (r: Result<MetaEvent<'a>, ErrorKind>)
    ensures
        match spec_read_meta_event(old(bytes)@) {
            Ok((event, rest)) => r matches Ok(e) && e@ == event && final(bytes)@ == rest,
            Err(kind) => r matches Err(k) && k == kind,
        },
{
    let ghost s = bytes@;
    let meta_type = read_u8(bytes)?;
    let meta_event = match meta_type {
        0x00 => {
            expect_u8(bytes, 2)?;
            let number = read_u16(bytes)?;
            MetaEvent::SequenceNumber(number)
        },
        0x01 => MetaEvent::Text(read_text(bytes)?),
        0x02 => MetaEvent::CopyrightNotice(read_text(bytes)?),
        0x03 => MetaEvent::Name(read_text(bytes)?),
        0x04 => MetaEvent::InstrumentName(read_text(bytes)?),
        0x05 => MetaEvent::Lyric(read_text(bytes)?),
        0x06 => MetaEvent::Marker(read_text(bytes)?),
        0x07 => MetaEvent::CuePoint(read_text(bytes)?),
        0x20 => {
            expect_u8(bytes, 1)?;
            let channel = read_u8(bytes)?;
            MetaEvent::ChannelPrefix(channel)
        },
        0x2f => {
            expect_u8(bytes, 0)?;
            MetaEvent::EndOfTrack
        },
        0x51 => {
            expect_u8(bytes, 3)?;
            let tempo = read_u24(bytes)?;
            MetaEvent::SetTempo(tempo)
        },
        0x54 => {
            expect_u8(bytes, 5)?;
            let hh = read_u8(bytes)?;
            let mm = read_u8(bytes)?;
            let ss = read_u8(bytes)?;
            let fr = read_u8(bytes)?;
            let ff = read_u8(bytes)?;
            MetaEvent::SMTPEOffset { hh, mm, ss, fr, ff }
        },
        0x58 => {
            expect_u8(bytes, 4)?;
            let nn = read_u8(bytes)?;
            let dd = read_u8(bytes)?;
            let cc = read_u8(bytes)?;
            let bb = read_u8(bytes)?;
            MetaEvent::TimeSignature { nn, dd, cc, bb }
        },
        0x59 => {
            expect_u8(bytes, 2)?;
            let sf = read_u8(bytes)?;
            let mi = read_u8(bytes)?;
            MetaEvent::KeySignature { sf, mi }
        },
        0x7f => MetaEvent::SequencerSpecific(read_data(bytes)?),
        _ => {
            let data = read_data(bytes)?;
            MetaEvent::Unknown { meta_type, data }
        },
    };
    proof {
        if let Some(len) = meta_fixed_len(meta_type) {
            assert(bytes@ =~= s.skip(2 + len));
        }
    }
    Ok(meta_event)
}

/// Taking a meta event looks at no byte after its last.
pub proof fn lemma_read_meta_event_extends(a: Seq<u8>, b: Seq<u8>)
    ensures
        spec_read_meta_event(a) matches Ok((event, rest)) ==> spec_read_meta_event(a + b) == Ok::<
            (MetaEventView, Seq<u8>),
            ErrorKind,
        >((event, rest + b)),
{
    if a.len() >= 1 {
        match meta_fixed_len(a[0]) {
            Some(len) => {
                if a.len() >= 2 + len {
                    assert((a + b).subrange(2, 2 + len) =~= a.subrange(2, 2 + len));
                    assert((a + b).skip(2 + len) =~= a.skip(2 + len) + b);
                }
            },
            None => {
                assert((a + b).skip(1) =~= a.skip(1) + b);
                lemma_read_data_extends(a.skip(1), b);
            },
        }
    }
}

} // verus!
