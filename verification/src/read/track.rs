//! Track chunks and the events inside them.
//!
//! A track chunk is `MTrk`, a 32-bit length, and that many bytes of events.
//! An event is a delta time, a byte that names its category, and the body
//! that the category asks for.

use vstd::prelude::*;
use crate::error::{context, Error, ErrorKind};
use crate::event::{
    Event, EventKind, EventKindView, EventView, SysexEvent, SysexEventView,
};
use crate::read::cursor::{be32, expect_bytes, read_bytes, read_u32, read_u8};
use crate::read::meta::{lemma_read_meta_event_extends, read_meta_event, spec_read_meta_event};
use crate::read::midi::{lemma_read_midi_event_extends, read_midi_event, spec_read_midi_event};
use crate::read::vlq::{
    lemma_read_data_extends, lemma_read_vlq_extends, read_data, read_vlq, spec_read_data,
    spec_read_vlq,
};

verus! {

/// The event bytes of one track chunk, from the next event on.
pub struct TrackChunk<'a> {
    data: &'a [u8],
}

impl<'a> View for TrackChunk<'a> {
    type V = Seq<u8>;

    closed spec fn view(&self) -> Seq<u8> {
        self.data@
    }
}

/// The four bytes `MTrk`.
pub open spec fn track_magic() -> Seq<u8> {
    seq![0x4du8, 0x54u8, 0x72u8, 0x6bu8]
}

/// Taking a track chunk: its event bytes, exactly as many as its length
/// field says, and what is left after them.
pub open spec fn spec_read_track_chunk(s: Seq<u8>) -> Result<(Seq<u8>, Seq<u8>), Error> {
    if s.len() < 4 {
        Err(context("read_track_chunk: track type must be 'MTrk'", ErrorKind::Fatal))
    } else if s.take(4) != track_magic() {
        Err(context("read_track_chunk: track type must be 'MTrk'", ErrorKind::Invalid))
    } else if s.len() < 8 {
        Err(context("read_track_chunk: track must specify len", ErrorKind::Fatal))
    } else if s.len() < 8 + be32(s[4], s[5], s[6], s[7]) {
        Err(context("read_track_chunk: track must contain event bytes", ErrorKind::Fatal))
    } else {
        let end = 8 + be32(s[4], s[5], s[6], s[7]);
        Ok((s.subrange(8, end), s.skip(end)))
    }
}

/// Taking an event: the delta time, the byte that names the category, then
/// the body. `0xf0` and `0xf7` open a system-exclusive span, `0xff` a meta
/// event, and any other byte is the status byte of a channel event. An error
/// keeps the kind of the read that failed, under the name of its step.
pub open spec fn spec_read_event(s: Seq<u8>) -> Result<(EventView, Seq<u8>), Error> {
    match spec_read_vlq(s) {
        Err(kind) => Err(context("read_event: event must have valid time", kind)),
        Ok((time, rest)) => {
            if rest.len() < 1 {
                Err(context("read_event: event must have type", ErrorKind::Fatal))
            } else if rest[0] == 0xf0 || rest[0] == 0xf7 {
                match spec_read_data(rest.skip(1)) {
                    Err(kind) => Err(context("read_event: failed to read sysex event", kind)),
                    Ok((data, rest_after)) => Ok(
                        (
                            EventView {
                                time,
                                kind: EventKindView::Sysex(
                                    if rest[0] == 0xf0 {
                                        SysexEventView::F0(data)
                                    } else {
                                        SysexEventView::F7(data)
                                    },
                                ),
                            },
                            rest_after,
                        ),
                    ),
                }
            } else if rest[0] == 0xff {
                match spec_read_meta_event(rest.skip(1)) {
                    Err(kind) => Err(context("read_event: failed to read meta event", kind)),
                    Ok((event, rest_after)) => Ok(
                        (EventView { time, kind: EventKindView::Meta(event) }, rest_after),
                    ),
                }
            } else {
                match spec_read_midi_event(rest.skip(1), rest[0]) {
                    Err(kind) => Err(context("read_event: failed to read midi event", kind)),
                    Ok((event, rest_after)) => Ok(
                        (EventView { time, kind: EventKindView::Midi(event) }, rest_after),
                    ),
                }
            }
        },
    }
}

/// Takes a track chunk off the cursor and leaves it on the chunk after.
pub fn read_track_chunk<'a>(bytes: &mut &'a [u8]) -> (r: Result<TrackChunk<'a>, Error>)
    ensures
        match spec_read_track_chunk(old(bytes)@) {
            Ok((events, rest)) => r matches Ok(chunk) && chunk@ == events && final(bytes)@ == rest,
            Err(error) => r matches Err(e) && e == error,
        },
{
    let ghost s = bytes@;
    let magic: [u8; 4] = [0x4d, 0x54, 0x72, 0x6b];
    assert(magic@ =~= track_magic());
    // the chunk type
    match expect_bytes(bytes, magic.as_slice()) {
        Ok(()) => {},
        Err(kind) => {
            return Err(context("read_track_chunk: track type must be 'MTrk'", kind));
        },
    }
    // the length of the event bytes
    let len = match read_u32(bytes) {
        Ok(len) => len,
        Err(kind) => {
            return Err(context("read_track_chunk: track must specify len", kind));
        },
    };
    // the event bytes
    let data = match read_bytes(bytes, len as usize) {
        Ok(data) => data,
        Err(kind) => {
            return Err(context("read_track_chunk: track must contain event bytes", kind));
        },
    };
    assert(data@ =~= s.subrange(8, 8 + len));
    assert(bytes@ =~= s.skip(8 + len));
    Ok(TrackChunk { data })
}

/// Takes an event off the cursor and leaves it on the event after.
pub fn read_event<'a>(bytes: &mut &'a [u8]) -> (r: Result<Event<'a>, Error>)
    ensures
        match spec_read_event(old(bytes)@) {
            Ok((event, rest)) => r matches Ok(e) && e@ == event && final(bytes)@ == rest,
            Err(error) => r matches Err(e) && e == error,
        },
{
    // the delta time
    let time = match read_vlq(bytes) {
        Ok(time) => time,
        Err(kind) => {
            return Err(context("read_event: event must have valid time", kind));
        },
    };
    // the category
    let event_type = match read_u8(bytes) {
        Ok(event_type) => event_type,
        Err(kind) => {
            return Err(context("read_event: event must have type", kind));
        },
    };
    // the body
    let kind = match event_type {
        0xf0 => match read_data(bytes) {
            Ok(data) => EventKind::Sysex(SysexEvent::F0(data)),
            Err(kind) => {
                return Err(context("read_event: failed to read sysex event", kind));
            },
        },
        0xf7 => match read_data(bytes) {
            Ok(data) => EventKind::Sysex(SysexEvent::F7(data)),
            Err(kind) => {
                return Err(context("read_event: failed to read sysex event", kind));
            },
        },
        0xff => match read_meta_event(bytes) {
            Ok(event) => EventKind::Meta(event),
            Err(kind) => {
                return Err(context("read_event: failed to read meta event", kind));
            },
        },
        _ => match read_midi_event(bytes, event_type) {
            Ok(event) => EventKind::Midi(event),
            Err(kind) => {
                return Err(context("read_event: failed to read midi event", kind));
            },
        },
    };
    Ok(Event { kind, time })
}

impl<'a> TrackChunk<'a> {
    /// Takes the next event of the chunk: `None` once its bytes are used up,
    /// else the event, or the error that stopped the decoding.
    pub fn next(&mut self) -> (r: Option<Result<Event<'a>, Error>>)
        ensures
            old(self)@.len() == 0 ==> r is None && final(self)@ == old(self)@,
            old(self)@.len() > 0 ==> match spec_read_event(old(self)@) {
                Ok((event, rest)) => r matches Some(Ok(e)) && e@ == event && final(self)@ == rest,
                Err(error) => r matches Some(Err(e)) && e == error,
            },
    {
        if self.data.is_empty() {
            return None;
        }
        match read_event(&mut self.data) {
            Ok(event) => Some(Ok(event)),
            Err(error) => Some(Err(error)),
        }
    }
}

/// An event is taken off the front of the buffer and is at least three bytes
/// long: what is left after it is the buffer without its first bytes.
pub proof fn lemma_read_event_consumes(s: Seq<u8>)
    ensures
        spec_read_event(s) matches Ok((_, rest)) ==> rest.len() + 3 <= s.len() && rest == s.skip(
            s.len() - rest.len(),
        ),
{
    if let Ok((_, rest)) = spec_read_event(s) {
        assert(rest =~= s.skip(s.len() - rest.len()));
    }
}

/// Decoding an event looks at no byte after its last: with `b` behind the
/// buffer, the same event comes out and `b` is behind what is left.
pub proof fn lemma_read_event_extends(a: Seq<u8>, b: Seq<u8>)
    ensures
        spec_read_event(a) matches Ok((event, rest)) ==> spec_read_event(a + b) == Ok::<
            (EventView, Seq<u8>),
            Error,
        >((event, rest + b)),
{
    lemma_read_vlq_extends(a, b);
    if let Ok((_, rest)) = spec_read_vlq(a) {
        if rest.len() >= 1 {
            let body = rest.skip(1);
            assert((rest + b).skip(1) =~= body + b);
            lemma_read_data_extends(body, b);
            lemma_read_meta_event_extends(body, b);
            lemma_read_midi_event_extends(body, b, rest[0]);
        }
    }
}

/// A note-on whose key or velocity byte has its high bit set is refused: the
/// event is `Invalid`, whatever its delta time and channel.
pub proof fn lemma_note_on_rejects_high_bit(s: Seq<u8>)
    requires
        spec_read_vlq(s) matches Ok((_, rest)) && rest.len() >= 3 && rest[0] / 0x10 == 0x9 && (
        rest[1] >= 0x80 || rest[2] >= 0x80),
    ensures
        spec_read_event(s) == Err::<(EventView, Seq<u8>), Error>(
            context("read_event: failed to read midi event", ErrorKind::Invalid),
        ),
{
}

} // verus!
