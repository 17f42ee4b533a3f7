//! The byte layout of a file, and what decoding makes of it.
//!
//! The functions here put a file together from its parts: a header, and for
//! each track a chunk that frames a run of events. The theorems say that such
//! a file decodes to exactly those parts, that it stops decoding when its last
//! byte is cut off, and that a chunk more than the header announces is
//! refused.

use vstd::prelude::*;
use crate::error::{context, Error, ErrorKind};
use crate::event::{EventView, Format};
use crate::read::header::{header_magic, spec_read_header_chunk, HeaderChunk};
use crate::read::track::{
    lemma_read_event_consumes, lemma_read_event_extends, spec_read_event, spec_read_track_chunk,
    track_magic,
};
use crate::smf::{spec_read_events, spec_read_smf, spec_read_tracks, SmfView};

verus! {

/// The code that names a format in the header.
pub open spec fn format_code(format: Format) -> u16 {
    match format {
        Format::Single => 0,
        Format::MultiTrack => 1,
        Format::MultiSequence => 2,
    }
}

/// The two bytes of a 16-bit number, most significant first.
pub open spec fn be16_bytes(value: u16) -> Seq<u8> {
    seq![(value / 0x100) as u8, (value % 0x100) as u8]
}

/// The four bytes of a 32-bit number, most significant first.
pub open spec fn be32_bytes(value: u32) -> Seq<u8> {
    seq![
        (value / 0x100_0000) as u8,
        (value / 0x1_0000 % 0x100) as u8,
        (value / 0x100 % 0x100) as u8,
        (value % 0x100) as u8,
    ]
}

/// The fourteen bytes of a header chunk.
pub open spec fn header_bytes(header: HeaderChunk) -> Seq<u8> {
    header_magic() + be32_bytes(6) + be16_bytes(format_code(header.format)) + be16_bytes(
        header.tracks,
    ) + be16_bytes(header.division)
}

/// The track chunk that frames the event bytes `events`.
pub open spec fn track_chunk_bytes(events: Seq<u8>) -> Seq<u8>
    recommends
        events.len() <= u32::MAX,
{
    track_magic() + be32_bytes(events.len() as u32) + events
}

/// Whether `bytes` are one event from the first byte to the last.
pub open spec fn is_event(bytes: Seq<u8>) -> bool {
    spec_read_event(bytes) matches Ok((_, rest)) && rest.len() == 0
}

/// The event that `bytes` are.
pub open spec fn event_of(bytes: Seq<u8>) -> EventView
    recommends
        is_event(bytes),
{
    spec_read_event(bytes)->Ok_0.0
}

/// The events of a track given as the bytes of each.
pub open spec fn events_of(track: Seq<Seq<u8>>) -> Seq<EventView> {
    track.map_values(|bytes: Seq<u8>| event_of(bytes))
}

/// The events of each track.
pub open spec fn tracks_of(tracks: Seq<Seq<Seq<u8>>>) -> Seq<Seq<EventView>> {
    tracks.map_values(|track: Seq<Seq<u8>>| events_of(track))
}

/// Whether a track, given as the bytes of each of its events, can be framed
/// by a chunk: every part is one event and their total length fits the
/// chunk's length field.
pub open spec fn is_track(track: Seq<Seq<u8>>) -> bool {
    &&& forall|i: int| 0 <= i < track.len() ==> is_event(#[trigger] track[i])
    &&& track.flatten().len() <= u32::MAX
}

/// The chunks of the tracks, one behind the other.
pub open spec fn tracks_bytes(tracks: Seq<Seq<Seq<u8>>>) -> Seq<u8>
    decreases tracks.len(),
{
    if tracks.len() == 0 {
        Seq::empty()
    } else {
        track_chunk_bytes(tracks.first().flatten()) + tracks_bytes(tracks.drop_first())
    }
}

/// The file with this header and these tracks.
pub open spec fn smf_bytes(header: HeaderChunk, tracks: Seq<Seq<Seq<u8>>>) -> Seq<u8> {
    header_bytes(header) + tracks_bytes(tracks)
}

/// The header chunk of a header decodes to that header, whatever follows.
pub proof fn lemma_read_header_bytes(header: HeaderChunk, after: Seq<u8>)
    ensures
        spec_read_header_chunk(header_bytes(header) + after) == Ok::<
            (HeaderChunk, Seq<u8>),
            Error,
        >((header, after)),
{
    let s = header_bytes(header) + after;
    assert(s.take(4) =~= header_magic());
    assert(s.skip(14) =~= after);
}

/// The chunk that frames `events` decodes to `events`, whatever follows.
pub proof fn lemma_read_track_chunk_bytes(events: Seq<u8>, after: Seq<u8>)
    requires
        events.len() <= u32::MAX,
    ensures
        spec_read_track_chunk(track_chunk_bytes(events) + after) == Ok::<
            (Seq<u8>, Seq<u8>),
            Error,
        >((events, after)),
{
    let s = track_chunk_bytes(events) + after;
    let end = 8 + events.len() as int;
    assert(s.take(4) =~= track_magic());
    assert(s.subrange(8, end) =~= events);
    assert(s.skip(end) =~= after);
}

/// Decoding a run of events that starts with the event `first` gives that
/// event, then what decoding the bytes behind it gives.
pub proof fn lemma_read_events_step(first: Seq<u8>, behind: Seq<u8>)
    requires
        is_event(first),
    ensures
        spec_read_events(first + behind) == match spec_read_events(behind) {
            Err(error) => Err::<Seq<EventView>, Error>(error),
            Ok(events) => Ok(seq![event_of(first)] + events),
        },
{
    lemma_read_event_consumes(first);
    lemma_read_event_extends(first, behind);
    assert(Seq::<u8>::empty() + behind =~= behind);
}

/// A run of events, one behind the other, decodes to those events in order.
pub proof fn lemma_read_events_of(track: Seq<Seq<u8>>)
    requires
        forall|i: int| 0 <= i < track.len() ==> is_event(#[trigger] track[i]),
    ensures
        spec_read_events(track.flatten()) == Ok::<Seq<EventView>, Error>(events_of(track)),
    decreases track.len(),
{
    if track.len() == 0 {
        assert(events_of(track) =~= Seq::<EventView>::empty());
    } else {
        let first = track.first();
        let others = track.drop_first();
        assert(is_event(first));
        assert forall|i: int| 0 <= i < others.len() implies is_event(#[trigger] others[i]) by {
            assert(others[i] == track[i + 1]);
        }
        lemma_read_events_of(others);
        lemma_read_events_step(first, others.flatten());
        assert(seq![event_of(first)] + events_of(others) =~= events_of(track));
    }
}

/// One chunk for each of `tracks`, one behind the other and followed by
/// `after`, decode to the events of each track and leave `after`.
pub proof fn lemma_read_tracks_bytes(tracks: Seq<Seq<Seq<u8>>>, after: Seq<u8>)
    requires
        forall|i: int| 0 <= i < tracks.len() ==> is_track(#[trigger] tracks[i]),
    ensures
        spec_read_tracks(tracks_bytes(tracks) + after, tracks.len()) == Ok::<
            (Seq<Seq<EventView>>, Seq<u8>),
            Error,
        >((tracks_of(tracks), after)),
    decreases tracks.len(),
{
    if tracks.len() == 0 {
        assert(tracks_bytes(tracks) + after =~= after);
        assert(tracks_of(tracks) =~= Seq::<Seq<EventView>>::empty());
    } else {
        let first = tracks.first();
        let others = tracks.drop_first();
        assert(is_track(first));
        assert forall|i: int| 0 <= i < others.len() implies is_track(#[trigger] others[i]) by {
            assert(others[i] == tracks[i + 1]);
        }
        let behind = tracks_bytes(others) + after;
        assert(tracks_bytes(tracks) + after =~= track_chunk_bytes(first.flatten()) + behind);
        lemma_read_track_chunk_bytes(first.flatten(), behind);
        lemma_read_events_of(first);
        lemma_read_tracks_bytes(others, after);
        assert(seq![events_of(first)] + tracks_of(others) =~= tracks_of(tracks));
    }
}

/// A file put together from a header and as many tracks as the header
/// announces, each a run of events, decodes without error: the header comes
/// out as it went in, the tracks come out as the events of each part, and no
/// byte is left after the last chunk.
pub proof fn lemma_well_formed_smf_decodes(header: HeaderChunk, tracks: Seq<Seq<Seq<u8>>>)
    requires
        tracks.len() == header.tracks,
        forall|i: int| 0 <= i < tracks.len() ==> is_track(#[trigger] tracks[i]),
    ensures
        spec_read_header_chunk(smf_bytes(header, tracks)) == Ok::<(HeaderChunk, Seq<u8>), Error>(
            (header, tracks_bytes(tracks)),
        ),
        spec_read_tracks(tracks_bytes(tracks), header.tracks as nat) == Ok::<
            (Seq<Seq<EventView>>, Seq<u8>),
            Error,
        >((tracks_of(tracks), Seq::empty())),
        spec_read_smf(smf_bytes(header, tracks)) == Ok::<SmfView, Error>(
            (SmfView {
                format: header.format,
                tracks: tracks_of(tracks),
                division: header.division,
            }),
        ),
{
    lemma_read_header_bytes(header, tracks_bytes(tracks));
    lemma_read_tracks_bytes(tracks, Seq::empty());
    assert(tracks_bytes(tracks) + Seq::<u8>::empty() =~= tracks_bytes(tracks));
}

/// The chunks of a run of tracks with one more track behind it.
pub proof fn lemma_tracks_bytes_push(tracks: Seq<Seq<Seq<u8>>>, track: Seq<Seq<u8>>)
    ensures
        tracks_bytes(tracks.push(track)) == tracks_bytes(tracks) + track_chunk_bytes(
            track.flatten(),
        ),
    decreases tracks.len(),
{
    let all = tracks.push(track);
    if tracks.len() == 0 {
        assert(all.drop_first() =~= Seq::<Seq<Seq<u8>>>::empty());
        assert(tracks_bytes(all.drop_first()) =~= Seq::<u8>::empty());
        assert(tracks_bytes(all) =~= tracks_bytes(tracks) + track_chunk_bytes(track.flatten()));
    } else {
        assert(all.drop_first() =~= tracks.drop_first().push(track));
        lemma_tracks_bytes_push(tracks.drop_first(), track);
        assert(tracks_bytes(all) =~= tracks_bytes(tracks) + track_chunk_bytes(track.flatten()));
    }
}

/// A file with one chunk more than its header announces is refused: the
/// announced tracks decode, the bytes of the last chunk are left over, and
/// the file as a whole is `Invalid`.
pub proof fn lemma_extra_track_is_refused(header: HeaderChunk, tracks: Seq<Seq<Seq<u8>>>)
    requires
        tracks.len() == header.tracks + 1,
        forall|i: int| 0 <= i < tracks.len() ==> is_track(#[trigger] tracks[i]),
    ensures
        spec_read_tracks(tracks_bytes(tracks), header.tracks as nat) == Ok::<
            (Seq<Seq<EventView>>, Seq<u8>),
            Error,
        >((tracks_of(tracks.drop_last()), track_chunk_bytes(tracks.last().flatten()))),
        spec_read_smf(smf_bytes(header, tracks)) == Err::<SmfView, Error>(
            context("TrackChunkIter::next: undread data left", ErrorKind::Invalid),
        ),
{
    let announced = tracks.drop_last();
    let extra = track_chunk_bytes(tracks.last().flatten());
    assert forall|i: int| 0 <= i < announced.len() implies is_track(#[trigger] announced[i]) by {
        assert(announced[i] == tracks[i]);
    }
    lemma_tracks_bytes_push(announced, tracks.last());
    assert(announced.push(tracks.last()) =~= tracks);
    lemma_read_tracks_bytes(announced, extra);
    lemma_read_header_bytes(header, tracks_bytes(tracks));
}

/// What is left after some track chunks is no longer than what they were
/// taken from.
pub proof fn lemma_read_tracks_rest(s: Seq<u8>, count: nat)
    ensures
        spec_read_tracks(s, count) matches Ok((_, rest)) ==> rest.len() <= s.len(),
    decreases count,
{
    if count > 0 {
        if let Ok((_, rest)) = spec_read_track_chunk(s) {
            lemma_read_tracks_rest(rest, (count - 1) as nat);
        }
    }
}

/// Cutting the last byte off a buffer that starts with a track chunk: the
/// chunk decodes as before when the byte came after it, and is `Fatal` when
/// the byte was its last.
pub proof fn lemma_truncated_track_chunk(s: Seq<u8>)
    requires
        spec_read_track_chunk(s) is Ok,
    ensures
        spec_read_track_chunk(s) matches Ok((events, rest)) && (if rest.len() > 0 {
            spec_read_track_chunk(s.drop_last()) == Ok::<(Seq<u8>, Seq<u8>), Error>(
                (events, rest.drop_last()),
            )
        } else {
            spec_read_track_chunk(s.drop_last()) matches Err(e) && e.kind == ErrorKind::Fatal
        }),
{
    let cut = s.drop_last();
    let (events, rest) = spec_read_track_chunk(s)->Ok_0;
    let end = 8 + events.len() as int;
    assert(cut.take(4) =~= s.take(4));
    if rest.len() > 0 {
        assert(cut.subrange(8, end) =~= events);
        assert(cut.skip(end) =~= rest.drop_last());
    }
}

/// Cutting the last byte off a buffer from which `count` track chunks decode:
/// they decode as before when the byte came after them, and the decoding is
/// `Fatal` when the byte was the last of the last chunk.
pub proof fn lemma_truncated_tracks(s: Seq<u8>, count: nat)
    requires
        spec_read_tracks(s, count) is Ok,
        s.len() > 0,
    ensures
        spec_read_tracks(s, count) matches Ok((tracks, rest)) && (if rest.len() > 0 {
            spec_read_tracks(s.drop_last(), count) == Ok::<(Seq<Seq<EventView>>, Seq<u8>), Error>(
                (tracks, rest.drop_last()),
            )
        } else {
            spec_read_tracks(s.drop_last(), count) matches Err(e) && e.kind == ErrorKind::Fatal
        }),
    decreases count,
{
    if count > 0 {
        let (events, behind) = spec_read_track_chunk(s)->Ok_0;
        lemma_truncated_track_chunk(s);
        lemma_read_tracks_rest(behind, (count - 1) as nat);
        if behind.len() > 0 {
            lemma_truncated_tracks(behind, (count - 1) as nat);
        }
    }
}

/// A file that decodes stops decoding when its last byte is cut off: the
/// decoding ends in a `Fatal` error.
pub proof fn lemma_truncated_smf_fails(s: Seq<u8>)
    requires
        spec_read_smf(s) is Ok,
    ensures
        spec_read_smf(s.drop_last()) matches Err(e) && e.kind == ErrorKind::Fatal,
{
    let cut = s.drop_last();
    let (header, behind) = spec_read_header_chunk(s)->Ok_0;
    assert(cut.take(4) =~= s.take(4));
    if behind.len() > 0 {
        assert(cut.skip(14) =~= behind.drop_last());
        lemma_truncated_tracks(behind, header.tracks as nat);
    }
}

} // verus!
