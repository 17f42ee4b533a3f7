//! Zero-copy decoder for Standard MIDI Files.
//!
//! A file is a header chunk followed by track chunks; a track chunk frames a
//! run of events. Every decoder here works on a cursor, a `&mut &[u8]` that
//! it advances past the bytes it has read, and every decoded payload is a
//! borrow of the input buffer.
//!
//! Each decoder comes with a specification function over `Seq<u8>` that says
//! what it returns and what it leaves on the cursor.

pub mod error;
pub mod event;
pub mod layout;
pub mod read;
pub mod smf;

pub use crate::error::{Error, ErrorKind};
pub use crate::event::{
    Action, Event, EventKind, EventKindView, EventView, Format, Fps, MetaEvent, MetaEventView,
    MidiEvent, MidiEventKind, SysexEvent, SysexEventView, Text, Timing,
};
pub use crate::smf::{Smf, SmfView, Track};
