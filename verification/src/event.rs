//! The decoded data: header fields and the events of a track.
//!
//! Types that borrow from the input buffer have a view in which every borrowed
//! span is the sequence of its bytes.

use vstd::prelude::*;
use vstd::string::StringSliceAdditionalSpecFns;
use vstd::utf8::valid_utf8;
use core::str::Utf8Error;

verus! {

/// How the tracks of a file relate to each other.
#[derive(Debug, Clone, Copy, PartialEq, Eq, Structural)]
pub enum Format {
    /// One track.
    Single,
    /// Several tracks that sound together.
    MultiTrack,
    /// Several independent single-track sequences.
    MultiSequence,
}

/// Frames per second of a timecode division.
#[derive(Debug, Clone, Copy, PartialEq, Eq, Structural)]
pub enum Fps {
    Fps24,
    Fps25,
    Fps30Drop,
    Fps30NonDrop,
}

/// The two readings of a header's division field.
#[derive(Debug, Clone, Copy, PartialEq, Eq, Structural)]
pub enum Timing {
    /// Pulses per quarter note.
    Metrical(u16),
    /// Absolute time.
    Timecode {
        /// Frames per second.
        fps: Fps,
        /// Subdivisions of a frame.
        subframe: u8,
    },
}

/// What a local-control message asks for.
#[derive(Debug, Clone, Copy, PartialEq, Eq, Structural)]
pub enum Action {
    Disconnect,
    Reconnect,
}

/// The message of a channel event.
#[derive(Debug, Clone, Copy, PartialEq, Eq, Structural)]
pub enum MidiEventKind {
    NoteOff { key: u8, velocity: u8 },
    NoteOn { key: u8, velocity: u8 },
    PolyphonicKeyPressure { key: u8, velocity: u8 },
    ControllerChange { number: u8, value: u8 },
    ProgramChange(u8),
    ChannelKeyPressure(u8),
    PitchBend { lsb: u8, msb: u8 },
    AllSoundOff,
    ResetAllControllers,
    LocalControl(Action),
    AllNotesOff,
    OmniModeOff,
    OmniModeOn,
    MonoModeOn(u8),
    PolyModeOn,
}

/// A channel event: the channel, 0 to 15, and its message.
#[derive(Debug, Clone, Copy, PartialEq, Eq, Structural)]
pub struct MidiEvent {
    pub channel: u8,
    pub kind: MidiEventKind,
}

/// The text of a meta event: bytes that may or may not be UTF-8.
#[derive(Debug, Clone, Copy, PartialEq, Eq)]
pub struct Text<'a> {
    data: &'a [u8],
}

impl<'a> View for Text<'a> {
    type V = Seq<u8>;

    closed spec fn view(&self) -> Seq<u8> {
        self.data@
    }
}

/// `core::str::Utf8Error`, the error of `core::str::from_utf8`. Nothing is
/// said of what it holds.
#[verifier::external_type_specification]
#[verifier::external_body]
pub struct ExUtf8Error(Utf8Error);

/// `core::str::from_utf8` succeeds exactly on the byte slices that are valid
/// UTF-8, and the string it returns has the bytes it was given.
pub assume_specification[ core::str::from_utf8 ](v: &[u8]) -> (res: Result<&str, Utf8Error>)
    ensures
        res is Ok <==> valid_utf8(v@),
        res matches Ok(s) ==> s.spec_bytes() == v@,
;

impl<'a> Text<'a> {
    /// Wraps a span of bytes.
    pub fn new(data: &'a [u8]) -> (text: Self)
        ensures
            text@ == data@,
    {
        Text { data }
    }

    /// The text as a string, if its bytes are valid UTF-8.
    pub fn as_utf8(&self) -> (res: Result<&'a str, Utf8Error>)
        ensures
            res is Ok <==> valid_utf8(self@),
            res matches Ok(s) ==> s.spec_bytes() == self@,
    {
        core::str::from_utf8(self.data)
    }

    /// The bytes of the text.
    pub fn raw(&self) -> (bytes: &'a [u8])
        ensures
            bytes@ == self@,
    {
        self.data
    }
}

/// A meta event.
#[derive(Debug, Clone, Copy, PartialEq, Eq)]
pub enum MetaEvent<'a> {
    SequenceNumber(u16),
    Text(Text<'a>),
    CopyrightNotice(Text<'a>),
    Name(Text<'a>),
    InstrumentName(Text<'a>),
    Lyric(Text<'a>),
    Marker(Text<'a>),
    CuePoint(Text<'a>),
    ChannelPrefix(u8),
    EndOfTrack,
    SetTempo(u32),
    SMTPEOffset { hh: u8, mm: u8, ss: u8, fr: u8, ff: u8 },
    TimeSignature { nn: u8, dd: u8, cc: u8, bb: u8 },
    KeySignature { sf: u8, mi: u8 },
    SequencerSpecific(&'a [u8]),
    Unknown { meta_type: u8, data: &'a [u8] },
}

/// A meta event with its spans as byte sequences.
pub enum MetaEventView {
    SequenceNumber(u16),
    Text(Seq<u8>),
    CopyrightNotice(Seq<u8>),
    Name(Seq<u8>),
    InstrumentName(Seq<u8>),
    Lyric(Seq<u8>),
    Marker(Seq<u8>),
    CuePoint(Seq<u8>),
    ChannelPrefix(u8),
    EndOfTrack,
    SetTempo(u32),
    SMTPEOffset { hh: u8, mm: u8, ss: u8, fr: u8, ff: u8 },
    TimeSignature { nn: u8, dd: u8, cc: u8, bb: u8 },
    KeySignature { sf: u8, mi: u8 },
    SequencerSpecific(Seq<u8>),
    Unknown { meta_type: u8, data: Seq<u8> },
}

impl<'a> View for MetaEvent<'a> {
    type V = MetaEventView;

    open spec fn view(&self) -> MetaEventView {
        match *self {
            MetaEvent::SequenceNumber(number) => MetaEventView::SequenceNumber(number),
            MetaEvent::Text(text) => MetaEventView::Text(text@),
            MetaEvent::CopyrightNotice(text) => MetaEventView::CopyrightNotice(text@),
            MetaEvent::Name(text) => MetaEventView::Name(text@),
            MetaEvent::InstrumentName(text) => MetaEventView::InstrumentName(text@),
            MetaEvent::Lyric(text) => MetaEventView::Lyric(text@),
            MetaEvent::Marker(text) => MetaEventView::Marker(text@),
            MetaEvent::CuePoint(text) => MetaEventView::CuePoint(text@),
            MetaEvent::ChannelPrefix(channel) => MetaEventView::ChannelPrefix(channel),
            MetaEvent::EndOfTrack => MetaEventView::EndOfTrack,
            MetaEvent::SetTempo(tempo) => MetaEventView::SetTempo(tempo),
            MetaEvent::SMTPEOffset { hh, mm, ss, fr, ff } => MetaEventView::SMTPEOffset {
                hh,
                mm,
                ss,
                fr,
                ff,
            },
            MetaEvent::TimeSignature { nn, dd, cc, bb } => MetaEventView::TimeSignature {
                nn,
                dd,
                cc,
                bb,
            },
            MetaEvent::KeySignature { sf, mi } => MetaEventView::KeySignature { sf, mi },
            MetaEvent::SequencerSpecific(data) => MetaEventView::SequencerSpecific(data@),
            MetaEvent::Unknown { meta_type, data } => MetaEventView::Unknown {
                meta_type,
                data: data@,
            },
        }
    }
}

/// A system-exclusive event, named by the byte that opens it.
#[derive(Debug, Clone, Copy, PartialEq, Eq)]
pub enum SysexEvent<'a> {
    F0(&'a [u8]),
    F7(&'a [u8]),
}

/// A system-exclusive event with its span as a byte sequence.
pub enum SysexEventView {
    F0(Seq<u8>),
    F7(Seq<u8>),
}

impl<'a> View for SysexEvent<'a> {
    type V = SysexEventView;

    open spec fn view(&self) -> SysexEventView {
        match *self {
            SysexEvent::F0(data) => SysexEventView::F0(data@),
            SysexEvent::F7(data) => SysexEventView::F7(data@),
        }
    }
}

/// The three categories of event.
#[derive(Debug, Clone, Copy, PartialEq, Eq)]
pub enum EventKind<'a> {
    Midi(MidiEvent),
    Meta(MetaEvent<'a>),
    Sysex(SysexEvent<'a>),
}

/// View of an [`EventKind`].
pub enum EventKindView {
    Midi(MidiEvent),
    Meta(MetaEventView),
    Sysex(SysexEventView),
}

impl<'a> View for EventKind<'a> {
    type V = EventKindView;

    open spec fn view(&self) -> EventKindView {
        match *self {
            EventKind::Midi(event) => EventKindView::Midi(event),
            EventKind::Meta(event) => EventKindView::Meta(event@),
            EventKind::Sysex(event) => EventKindView::Sysex(event@),
        }
    }
}

/// An event of a track.
#[derive(Debug, Clone, Copy, PartialEq, Eq)]
pub struct Event<'a> {
    /// Ticks since the previous event of the same track.
    pub time: u32,
    pub kind: EventKind<'a>,
}

/// View of an [`Event`].
pub struct EventView {
    pub time: u32,
    pub kind: EventKindView,
}

impl<'a> View for Event<'a> {
    type V = EventView;

    open spec fn view(&self) -> EventView {
        EventView { time: self.time, kind: self.kind@ }
    }
}

} // verus!
