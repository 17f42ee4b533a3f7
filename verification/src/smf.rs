//! A whole file decoded at once into owned tracks.

use vstd::prelude::*;
use crate::error::{context, Error, ErrorKind};
use crate::event::{Event, EventView, Format};
use crate::read::header::{spec_read_header_chunk, HeaderChunk};
use crate::read::reader::SmfReader;
use crate::read::track::{
    lemma_read_event_consumes, spec_read_event, spec_read_track_chunk, TrackChunk,
};

verus! {

/// The events of one track chunk, in the order of their bytes.
#[derive(Debug)]
pub struct Track<'a> {
    pub events: Vec<Event<'a>>,
}

/// A decoded file.
#[derive(Debug)]
pub struct Smf<'a> {
    pub format: Format,
    /// The tracks in the order of their chunks.
    pub tracks: Vec<Track<'a>>,
    pub division: u16,
}

/// View of a [`Smf`]: each track is the sequence of its events.
pub struct SmfView {
    pub format: Format,
    pub tracks: Seq<Seq<EventView>>,
    pub division: u16,
}

/// The views of a run of events.
pub open spec fn events_view<'a>(events: Seq<Event<'a>>) -> Seq<EventView> {
    events.map_values(|event: Event<'a>| event@)
}

/// The views of a run of tracks.
pub open spec fn tracks_view<'a>(tracks: Seq<Track<'a>>) -> Seq<Seq<EventView>> {
    tracks.map_values(|track: Track<'a>| track@)
}

impl<'a> View for Track<'a> {
    type V = Seq<EventView>;

    open spec fn view(&self) -> Seq<EventView> {
        events_view(self.events@)
    }
}

impl<'a> View for Smf<'a> {
    type V = SmfView;

    open spec fn view(&self) -> SmfView {
        SmfView {
            format: self.format,
            tracks: tracks_view(self.tracks@),
            division: self.division,
        }
    }
}

/// Decoding event after event until no byte of `s` is left: all the events,
/// or the error of the first that fails.
pub open spec fn spec_read_events(s: Seq<u8>) -> Result<Seq<EventView>, Error>
    decreases s.len(),
    via spec_read_events_decreases
{
    if s.len() == 0 {
        Ok(Seq::empty())
    } else {
        match spec_read_event(s) {
            Err(error) => Err(error),
            Ok((event, rest)) => match spec_read_events(rest) {
                Err(error) => Err(error),
                Ok(events) => Ok(seq![event] + events),
            },
        }
    }
}

#[via_fn]
proof fn spec_read_events_decreases(s: Seq<u8>) {
    lemma_read_event_consumes(s);
}

/// Decoding `count` track chunks from the front of `s`, each with all its
/// events before the next chunk is looked at: the tracks and what is left
/// after the last chunk, or the first error.
pub open spec fn spec_read_tracks(s: Seq<u8>, count: nat) -> Result<
    (Seq<Seq<EventView>>, Seq<u8>),
    Error,
>
    decreases count,
{
    if count == 0 {
        Ok((Seq::empty(), s))
    } else {
        match spec_read_track_chunk(s) {
            Err(error) => Err(error),
            Ok((bytes, rest)) => match spec_read_events(bytes) {
                Err(error) => Err(error),
                Ok(events) => match spec_read_tracks(rest, (count - 1) as nat) {
                    Err(error) => Err(error),
                    Ok((tracks, rest)) => Ok((seq![events] + tracks, rest)),
                },
            },
        }
    }
}

/// Decoding a whole file: the header, then as many tracks as it announces,
/// then nothing. Bytes after the last announced chunk are an `Invalid` error.
pub open spec fn spec_read_smf(s: Seq<u8>) -> Result<SmfView, Error> {
    match spec_read_header_chunk(s) {
        Err(error) => Err(error),
        Ok((header, rest)) => match spec_read_tracks(rest, header.tracks as nat) {
            Err(error) => Err(error),
            Ok((tracks, rest)) => {
                if rest.len() > 0 {
                    Err(context("TrackChunkIter::next: undread data left", ErrorKind::Invalid))
                } else {
                    Ok(SmfView { format: header.format, tracks, division: header.division })
                }
            },
        }
    }
}

/// Decodes all the events of a chunk.
fn collect_events<'a>(chunk: TrackChunk<'a>) -> (r: Result<Vec<Event<'a>>, Error>)
    ensures
        match spec_read_events(chunk@) {
            Ok(events) => r matches Ok(found) && events_view(found@) == events,
            Err(error) => r matches Err(e) && e == error,
        },
{
    let mut left = chunk;
    let mut events: Vec<Event<'a>> = Vec::new();
    loop
        invariant
            match spec_read_events(left@) {
                Ok(more) => spec_read_events(chunk@) == Ok::<Seq<EventView>, Error>(
                    events_view(events@) + more,
                ),
                Err(error) => spec_read_events(chunk@) == Err::<Seq<EventView>, Error>(error),
            },
        decreases left@.len(),
    {
        let ghost done = events_view(events@);
        proof {
            lemma_read_event_consumes(left@);
        }
        match left.next() {
            None => {
                assert(done + Seq::<EventView>::empty() =~= done);
                return Ok(events);
            },
            Some(Err(error)) => {
                return Err(error);
            },
            Some(Ok(event)) => {
                events.push(event);
                proof {
                    assert(events_view(events@) =~= done.push(event@));
                    if let Ok(more) = spec_read_events(left@) {
                        assert(done + (seq![event@] + more) =~= done.push(event@) + more);
                    }
                }
            },
        }
    }
}

impl<'a> Smf<'a> {
    /// Decodes a whole file: the header, every track chunk it announces and
    /// every event of each. Stops at the first error.
    pub fn read(data: &'a [u8]) -> (r: Result<Self, Error>)
        ensures
            match spec_read_smf(data@) {
                Ok(smf) => r matches Ok(found) && found@ == smf,
                Err(error) => r matches Err(e) && e == error,
            },
    {
        let reader = SmfReader::new(data)?;
        let header = reader.header_chunk();
        let mut tracks: Vec<Track<'a>> = Vec::with_capacity(header.tracks as usize);
        let mut track_chunks = reader.track_chunk_iter();
        let ghost all = track_chunks.spec_data();
        loop
            invariant
                spec_read_header_chunk(data@) == Ok::<(HeaderChunk, Seq<u8>), Error>(
                    (header, all),
                ),
                track_chunks.spec_tracks() <= header.tracks,
                match spec_read_tracks(track_chunks.spec_data(), track_chunks.spec_tracks()) {
                    Ok((more, rest)) => spec_read_tracks(all, header.tracks as nat) == Ok::<
                        (Seq<Seq<EventView>>, Seq<u8>),
                        Error,
                    >((tracks_view(tracks@) + more, rest)),
                    Err(error) => spec_read_tracks(all, header.tracks as nat) == Err::<
                        (Seq<Seq<EventView>>, Seq<u8>),
                        Error,
                    >(error),
                },
            decreases track_chunks.spec_tracks(),
        {
            let ghost done = tracks_view(tracks@);
            match track_chunks.next() {
                None => {
                    assert(done + Seq::<Seq<EventView>>::empty() =~= done);
                    return Ok(Smf { format: header.format, tracks, division: header.division });
                },
                Some(Err(error)) => {
                    assert(done + Seq::<Seq<EventView>>::empty() =~= done);
                    return Err(error);
                },
                Some(Ok(chunk)) => {
                    let events = collect_events(chunk)?;
                    let track = Track { events };
                    tracks.push(track);
                    proof {
                        assert(tracks_view(tracks@) =~= done.push(track@));
                        if let Ok((more, rest)) = spec_read_tracks(
                            track_chunks.spec_data(),
                            track_chunks.spec_tracks(),
                        ) {
                            assert(done + (seq![track@] + more) =~= done.push(track@) + more);
                        }
                    }
                },
            }
        }
    }
}

} // verus!
