//! Low-level reading interface.
//!
//! From the leaves up: reads off a byte cursor, variable-length quantities,
//! the three categories of event, the two kinds of chunk, and the lazy reader
//! over a whole file.

pub mod cursor;
pub mod header;
pub mod meta;
pub mod midi;
pub mod reader;
pub mod track;
pub mod vlq;

pub use crate::read::cursor::{
    expect_bytes, expect_u32, expect_u8, read_bytes, read_u16, read_u24, read_u32, read_u7,
    read_u8,
};
pub use crate::read::header::{read_format, read_header_chunk, HeaderChunk};
pub use crate::read::meta::read_meta_event;
pub use crate::read::midi::{read_action, read_midi_event};
pub use crate::read::reader::{SmfReader, TrackChunkIter};
pub use crate::read::track::{read_event, read_track_chunk, TrackChunk};
pub use crate::read::vlq::{read_data, read_text, read_vlq};
