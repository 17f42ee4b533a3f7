//! The header chunk: `MThd`, the length 6, then format, track count and
//! division, two bytes each, most significant first.

use vstd::prelude::*;
use crate::error::{context, Error, ErrorKind};
use crate::event::Format;
use crate::read::cursor::{be16, be32, expect_bytes, expect_u32, read_u16};

verus! {

/// What the header chunk says of the file.
#[derive(Debug, Clone, Copy, PartialEq, Eq, Structural)]
pub struct HeaderChunk {
    pub format: Format,
    /// How many track chunks follow.
    pub tracks: u16,
    /// Ticks per quarter note when the top bit is clear, else a frame rate and
    /// the ticks per frame.
    pub division: u16,
}

/// The four bytes `MThd`.
pub open spec fn header_magic() -> Seq<u8> {
    seq![0x4du8, 0x54u8, 0x68u8, 0x64u8]
}

/// The format that a code names: 0, 1 and 2 name one each.
pub open spec fn format_of(code: u16) -> Option<Format> {
    if code == 0 {
        Some(Format::Single)
    } else if code == 1 {
        Some(Format::MultiTrack)
    } else if code == 2 {
        Some(Format::MultiSequence)
    } else {
        None
    }
}

/// Taking a format: a 16-bit code that must name one.
pub open spec fn spec_read_format(s: Seq<u8>) -> Result<(Format, Seq<u8>), ErrorKind> {
    if s.len() < 2 {
        Err(ErrorKind::Fatal)
    } else {
        match format_of(be16(s[0], s[1])) {
            None => Err(ErrorKind::Invalid),
            Some(format) => Ok((format, s.skip(2))),
        }
    }
}

/// Taking the header chunk: its fourteen bytes field by field and what is
/// left after them. The first field that is cut short is `Fatal`, the first
/// that holds what it must not is `Invalid`, each under the name of its step.
pub open spec fn spec_read_header_chunk(s: Seq<u8>) -> Result<(HeaderChunk, Seq<u8>), Error> {
    if s.len() < 4 {
        Err(context("read_header_chunk: header type must be 'MThd'", ErrorKind::Fatal))
    } else if s.take(4) != header_magic() {
        Err(context("read_header_chunk: header type must be 'MThd'", ErrorKind::Invalid))
    } else if s.len() < 8 {
        Err(context("read_header_chunk: header data length should be 6", ErrorKind::Fatal))
    } else if be32(s[4], s[5], s[6], s[7]) != 6 {
        Err(context("read_header_chunk: header data length should be 6", ErrorKind::Invalid))
    } else if s.len() < 10 {
        Err(context("read_header_chunk: header must specify format", ErrorKind::Fatal))
    } else if format_of(be16(s[8], s[9])) is None {
        Err(context("read_header_chunk: header must specify format", ErrorKind::Invalid))
    } else if s.len() < 12 {
        Err(context("read_header_chunk: header must specify tracks", ErrorKind::Fatal))
    } else if s.len() < 14 {
        Err(context("read_header_chunk: header must specify division", ErrorKind::Fatal))
    } else {
        Ok(
            (
                HeaderChunk {
                    format: format_of(be16(s[8], s[9])).unwrap(),
                    tracks: be16(s[10], s[11]),
                    division: be16(s[12], s[13]),
                },
                s.skip(14),
            ),
        )
    }
}

/// Takes a format off the cursor.
pub fn read_format(data: &mut &[u8]) -> (r: Result<Format, ErrorKind>)
    ensures
        match spec_read_format(old(data)@) {
            Ok((format, rest)) => r == Ok::<Format, ErrorKind>(format) && final(data)@ == rest,
            Err(kind) => r == Err::<Format, ErrorKind>(kind),
        },
{
    let value = read_u16(data)?;
    let format = match value {
        0 => Format::Single,
        1 => Format::MultiTrack,
        2 => Format::MultiSequence,
        _ => return Err(ErrorKind::Invalid),
    };
    Ok(format)
}

/// Takes the header chunk off the cursor and leaves it on the first track
/// chunk.
pub fn read_header_chunk(cursor: &mut &[u8]) -> (r: Result<HeaderChunk, Error>)
    ensures
        match spec_read_header_chunk(old(cursor)@) {
            Ok((header, rest)) => r == Ok::<HeaderChunk, Error>(header) && final(cursor)@ == rest,
            Err(error) => r == Err::<HeaderChunk, Error>(error),
        },
{
    let ghost s = cursor@;
    let magic: [u8; 4] = [0x4d, 0x54, 0x68, 0x64];
    assert(magic@ =~= header_magic());
    // the chunk type
    match expect_bytes(cursor, magic.as_slice()) {
        Ok(()) => {},
        Err(kind) => {
            return Err(context("read_header_chunk: header type must be 'MThd'", kind));
        },
    }
    // the length of what follows
    match expect_u32(cursor, 6) {
        Ok(()) => {},
        Err(kind) => {
            return Err(context("read_header_chunk: header data length should be 6", kind));
        },
    }
    // the fields
    let format = match read_format(cursor) {
        Ok(format) => format,
        Err(kind) => {
            return Err(context("read_header_chunk: header must specify format", kind));
        },
    };
    let tracks = match read_u16(cursor) {
        Ok(tracks) => tracks,
        Err(kind) => {
            return Err(context("read_header_chunk: header must specify tracks", kind));
        },
    };
    let division = match read_u16(cursor) {
        Ok(division) => division,
        Err(kind) => {
            return Err(context("read_header_chunk: header must specify division", kind));
        },
    };
    assert(cursor@ =~= s.skip(14));
    Ok(HeaderChunk { format, tracks, division })
}

} // verus!
