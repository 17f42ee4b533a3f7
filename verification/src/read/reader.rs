//! The lazy reader: the header up front, the track chunks one at a time.

use vstd::prelude::*;
use crate::error::{context, Error, ErrorKind};
use crate::read::header::{read_header_chunk, spec_read_header_chunk, HeaderChunk};
use crate::read::track::{read_track_chunk, spec_read_track_chunk, TrackChunk};

verus! {

/// A file whose header has been decoded and whose track chunks have not.
pub struct SmfReader<'a> {
    header: HeaderChunk,
    // the bytes after the header chunk
    data: &'a [u8],
}

/// Hands out the track chunks of a file, as many as its header announced.
pub struct TrackChunkIter<'a> {
    data: &'a [u8],
    tracks: usize,
}

impl<'a> SmfReader<'a> {
    /// The header that was decoded.
    pub closed spec fn spec_header(&self) -> HeaderChunk {
        self.header
    }

    /// The bytes that follow the header chunk.
    pub closed spec fn spec_data(&self) -> Seq<u8> {
        self.data@
    }

    /// Decodes the header chunk at the front of `data` and keeps the rest for
    /// later. Fails where the header does.
    pub fn new(data: &'a [u8]) -> (r: Result<Self, Error>)
        ensures
            match spec_read_header_chunk(data@) {
                Ok((header, rest)) => r matches Ok(reader) && reader.spec_header() == header
                    && reader.spec_data() == rest,
                Err(error) => r matches Err(e) && e == error,
            },
    {
        let mut cursor = data;
        let header = read_header_chunk(&mut cursor)?;
        Ok(Self { header, data: cursor })
    }

    /// The header of the file.
    pub fn header_chunk(&self) -> (header: HeaderChunk)
        ensures
            header == self.spec_header(),
    {
        self.header
    }

    /// Starts over the track chunks: at the first byte after the header, with
    /// as many chunks to come as the header announced.
    pub fn track_chunk_iter(&self) -> (iter: TrackChunkIter<'a>)
        ensures
            iter.spec_data() == self.spec_data(),
            iter.spec_tracks() == self.spec_header().tracks,
    {
        TrackChunkIter { data: self.data, tracks: self.header.tracks as usize }
    }
}

impl<'a> TrackChunkIter<'a> {
    /// The bytes that have not been handed out.
    pub closed spec fn spec_data(&self) -> Seq<u8> {
        self.data@
    }

    /// How many chunks are still to come.
    pub closed spec fn spec_tracks(&self) -> nat {
        self.tracks as nat
    }

    /// Takes the next track chunk.
    ///
    /// While chunks are to come, one is taken off the front of the bytes and
    /// counted, whether or not it decodes. Once none is to come, the end is
    /// `None` when no byte is left, and an `Invalid` error when bytes are left
    /// over.
    pub fn next(&mut self) -> (r: Option<Result<TrackChunk<'a>, Error>>)
        ensures
            old(self).spec_tracks() == 0 ==> {
                &&& final(self).spec_tracks() == 0
                &&& final(self).spec_data() == old(self).spec_data()
                &&& old(self).spec_data().len() == 0 ==> r is None
                &&& old(self).spec_data().len() > 0 ==> (r matches Some(Err(e)) && e == context(
                    "TrackChunkIter::next: undread data left",
                    ErrorKind::Invalid,
                ))
            },
            old(self).spec_tracks() > 0 ==> {
                &&& final(self).spec_tracks() == old(self).spec_tracks() - 1
                &&& match spec_read_track_chunk(old(self).spec_data()) {
                    Ok((events, rest)) => {
                        &&& r matches Some(Ok(chunk))
                        &&& chunk@ == events
                        &&& final(self).spec_data() == rest
                    },
                    Err(error) => r matches Some(Err(e)) && e == error,
                }
            },
    {
        if self.tracks == 0 {
            if self.data.is_empty() {
                return None;
            }
            return Some(
                Err(context("TrackChunkIter::next: undread data left", ErrorKind::Invalid)),
            );
        }
        self.tracks -= 1;
        match read_track_chunk(&mut self.data) {
            Ok(chunk) => Some(Ok(chunk)),
            Err(error) => Some(Err(error)),
        }
    }
}

} // verus!
