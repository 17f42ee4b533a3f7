use midi::read::{SmfReader, TrackChunk};
use midi::{
    Error, ErrorKind, Event, EventKind, Format, MetaEvent, MidiEvent, MidiEventKind, Smf,
    SysexEvent, Text,
};

fn header(format: u16, tracks: u16, division: u16) -> Vec<u8> {
    let mut bytes = b"MThd\x00\x00\x00\x06".to_vec();
    bytes.extend(format.to_be_bytes());
    bytes.extend(tracks.to_be_bytes());
    bytes.extend(division.to_be_bytes());
    bytes
}

fn chunk(events: &[&[u8]]) -> Vec<u8> {
    let body: Vec<u8> = events.concat();
    let mut bytes = b"MTrk".to_vec();
    bytes.extend((body.len() as u32).to_be_bytes());
    bytes.extend(body);
    bytes
}

const TEMPO: &[u8] = &[0x00, 0xff, 0x51, 0x03, 0x07, 0xa1, 0x20];
const NAME: &[u8] = &[0x00, 0xff, 0x03, 0x05, b'p', b'i', b'a', b'n', b'o'];
const NOTE_ON: &[u8] = &[0x00, 0x90, 0x3c, 0x64];
const NOTE_OFF: &[u8] = &[0x83, 0x60, 0x80, 0x3c, 0x00];
const SYSEX: &[u8] = &[0x00, 0xf0, 0x03, 0x7e, 0x09, 0xf7];
const END: &[u8] = &[0x00, 0xff, 0x2f, 0x00];

fn two_track_file() -> Vec<u8> {
    let mut bytes = header(1, 2, 480);
    bytes.extend(chunk(&[TEMPO, END]));
    bytes.extend(chunk(&[NAME, SYSEX, NOTE_ON, NOTE_OFF, END]));
    bytes
}

fn events_of<'a>(mut chunk: TrackChunk<'a>) -> Result<Vec<Event<'a>>, Error> {
    let mut events = Vec::new();
    while let Some(event) = chunk.next() {
        events.push(event?);
    }
    Ok(events)
}

fn test_data(data: &[u8]) -> Vec<Vec<Event<'_>>> {
    let smf_reader = SmfReader::new(data).unwrap();
    let mut track_chunks = Vec::new();
    let mut iter = smf_reader.track_chunk_iter();
    while let Some(track_chunk) = iter.next() {
        track_chunks.push(track_chunk.unwrap());
    }
    track_chunks.into_iter().map(|events| events_of(events).unwrap()).collect()
}

#[test]
fn test_smf_reader() {
    let file = two_track_file();
    let tracks = test_data(&file);
    assert_eq!(tracks.len(), 2);
    assert_eq!(tracks[0].len(), 2);
    assert_eq!(tracks[1].len(), 5);

    let single = {
        let mut bytes = header(0, 1, 96);
        bytes.extend(chunk(&[NOTE_ON, NOTE_OFF, END]));
        bytes
    };
    let tracks = test_data(&single);
    assert_eq!(tracks.len(), 1);
    assert_eq!(tracks[0].len(), 3);
}

#[test]
fn reader_exposes_the_header() {
    let file = two_track_file();
    let reader = SmfReader::new(&file).unwrap();
    let header = reader.header_chunk();
    assert_eq!(header.format, Format::MultiTrack);
    assert_eq!(header.tracks, 2);
    assert_eq!(header.division, 480);
}

#[test]
fn reader_fails_on_a_malformed_header() {
    let error = SmfReader::new(b"RIFF\x00\x00\x00\x06\x00\x01\x00\x01\x00\x60").err().unwrap();
    assert_eq!(error.kind, ErrorKind::Invalid);
    assert_eq!(error.context, "read_header_chunk: header type must be 'MThd'");
    let error = SmfReader::new(b"MThd\x00\x00").err().unwrap();
    assert_eq!(error.kind, ErrorKind::Fatal);
    assert_eq!(error.context, "read_header_chunk: header data length should be 6");
}

#[test]
fn whole_file_decodes_to_its_events() {
    let file = two_track_file();
    let smf = Smf::read(&file).unwrap();
    assert_eq!(smf.format, Format::MultiTrack);
    assert_eq!(smf.division, 480);
    assert_eq!(smf.tracks.len(), 2);

    let first = &smf.tracks[0].events;
    assert_eq!(first.len(), 2);
    assert_eq!(first[0], Event { time: 0, kind: EventKind::Meta(MetaEvent::SetTempo(500_000)) });
    assert_eq!(first[1], Event { time: 0, kind: EventKind::Meta(MetaEvent::EndOfTrack) });

    let second = &smf.tracks[1].events;
    assert_eq!(second.len(), 5);
    assert_eq!(
        second[0],
        Event { time: 0, kind: EventKind::Meta(MetaEvent::Name(Text::new(b"piano"))) }
    );
    assert_eq!(
        second[1],
        Event { time: 0, kind: EventKind::Sysex(SysexEvent::F0(&[0x7e, 0x09, 0xf7])) }
    );
    assert_eq!(
        second[2],
        Event {
            time: 0,
            kind: EventKind::Midi(MidiEvent {
                channel: 0,
                kind: MidiEventKind::NoteOn { key: 0x3c, velocity: 0x64 },
            }),
        }
    );
    assert_eq!(
        second[3],
        Event {
            time: 480,
            kind: EventKind::Midi(MidiEvent {
                channel: 0,
                kind: MidiEventKind::NoteOff { key: 0x3c, velocity: 0 },
            }),
        }
    );
    assert_eq!(second[4], Event { time: 0, kind: EventKind::Meta(MetaEvent::EndOfTrack) });
}

#[test]
fn well_formed_file_is_consumed_exactly() {
    let file = two_track_file();
    let reader = SmfReader::new(&file).unwrap();
    let mut chunks = reader.track_chunk_iter();
    let mut tracks = 0;
    let mut events = 0;
    while let Some(chunk) = chunks.next() {
        let mut chunk = chunk.unwrap();
        while let Some(event) = chunk.next() {
            event.unwrap();
            events += 1;
        }
        tracks += 1;
    }
    assert_eq!(tracks, 2);
    assert_eq!(events, 7);
    // the end stays the end
    assert!(chunks.next().is_none());
}

#[test]
fn file_without_tracks() {
    let file = header(0, 0, 96);
    let smf = Smf::read(&file).unwrap();
    assert_eq!(smf.format, Format::Single);
    assert!(smf.tracks.is_empty());
    let reader = SmfReader::new(&file).unwrap();
    assert!(reader.track_chunk_iter().next().is_none());
}

#[test]
fn every_truncation_of_a_well_formed_file_fails() {
    let file = two_track_file();
    assert!(Smf::read(&file).is_ok());
    let cut = &file[..file.len() - 1];
    let error = Smf::read(cut).err().unwrap();
    assert_eq!(error.kind, ErrorKind::Fatal);
    assert_eq!(error.context, "read_track_chunk: track must contain event bytes");
    for len in 0..file.len() {
        let error = Smf::read(&file[..len]).err().unwrap();
        assert!(error.kind == ErrorKind::Fatal || error.kind == ErrorKind::Invalid);
    }
}

#[test]
fn truncating_a_file_that_ends_in_an_empty_chunk() {
    let mut file = header(1, 1, 96);
    file.extend(chunk(&[]));
    assert!(Smf::read(&file).is_ok());
    let error = Smf::read(&file[..file.len() - 1]).err().unwrap();
    assert_eq!(error.kind, ErrorKind::Fatal);
    assert_eq!(error.context, "read_track_chunk: track must specify len");

    let bare = header(1, 0, 96);
    let error = Smf::read(&bare[..bare.len() - 1]).err().unwrap();
    assert_eq!(error.kind, ErrorKind::Fatal);
    assert_eq!(error.context, "read_header_chunk: header must specify division");
}

#[test]
fn chunk_beyond_the_declared_count_is_reported() {
    for declared in 0u16..4 {
        let mut file = header(1, declared, 96);
        for _ in 0..declared + 1 {
            file.extend(chunk(&[NOTE_ON, END]));
        }
        let reader = SmfReader::new(&file).unwrap();
        let mut chunks = reader.track_chunk_iter();
        for _ in 0..declared {
            let track = chunks.next().unwrap().unwrap();
            assert_eq!(events_of(track).unwrap().len(), 2);
        }
        let error = chunks.next().unwrap().err().unwrap();
        assert_eq!(error.kind, ErrorKind::Invalid);
        assert_eq!(error.context, "TrackChunkIter::next: undread data left");

        let error = Smf::read(&file).err().unwrap();
        assert_eq!(error.kind, ErrorKind::Invalid);
        assert_eq!(error.context, "TrackChunkIter::next: undread data left");
    }
}

#[test]
fn missing_chunk_is_fatal() {
    let mut file = header(1, 2, 96);
    file.extend(chunk(&[END]));
    let error = Smf::read(&file).err().unwrap();
    assert_eq!(error.kind, ErrorKind::Fatal);
    assert_eq!(error.context, "read_track_chunk: track type must be 'MTrk'");
}

#[test]
fn event_error_comes_before_the_next_chunk() {
    let mut file = header(1, 2, 96);
    file.extend(chunk(&[NOTE_ON, &[0x00, 0x90, 0x80, 0x00]]));
    file.extend(b"junk");
    let error = Smf::read(&file).err().unwrap();
    assert_eq!(error.kind, ErrorKind::Invalid);
    assert_eq!(error.context, "read_event: failed to read midi event");
}

#[test]
fn chunk_of_another_type_is_invalid() {
    let mut file = header(1, 1, 96);
    file.extend(b"XFIH\x00\x00\x00\x00");
    let error = Smf::read(&file).err().unwrap();
    assert_eq!(error.kind, ErrorKind::Invalid);
    assert_eq!(error.context, "read_track_chunk: track type must be 'MTrk'");
}
