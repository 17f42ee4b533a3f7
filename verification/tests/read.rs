use midi::read::{read_header_chunk, read_u16, read_u24, read_u32, read_u7, read_vlq};
use midi::{ErrorKind, Format};

#[test]
fn test_read_vlq() {
    fn read_vlq_u(mut bytes: &[u8]) -> u32 {
        let value = read_vlq(&mut bytes).unwrap();
        assert_eq!(bytes, &[] as &[u8]);
        value
    }
    assert_eq!(read_vlq_u(&[0]), 0);
    assert_eq!(read_vlq_u(&[0x7f]), 0x7f);
    assert_eq!(read_vlq_u(&[0x81, 0x00]), 0x80);
    assert_eq!(read_vlq_u(&[0xff, 0x7f]), 0x3fff);
    assert_eq!(read_vlq_u(&[0x87, 0x68]), 0x3e8);
    assert_eq!(read_vlq_u(&[0xbd, 0x84, 0x40]), 0xf4240);
}

#[test]
fn test_read_u7() {
    fn read_u7_u(mut bytes: &[u8]) -> Result<u8, ErrorKind> {
        let value = read_u7(&mut bytes);
        assert_eq!(bytes, &[] as &[u8]);
        value
    }

    assert_eq!(read_u7_u(&[0]).unwrap(), 0);
    assert_eq!(read_u7_u(&[0x7f]).unwrap(), 0x7f);
    assert_eq!(read_u7_u(&[0x80]).unwrap_err(), ErrorKind::Invalid);
    assert_eq!(read_u7_u(&[0xff]).unwrap_err(), ErrorKind::Invalid);
}

#[test]
fn test_read_u16() {
    fn read_u16_u(mut bytes: &[u8]) -> u16 {
        let value = read_u16(&mut bytes).unwrap();
        assert_eq!(bytes, &[] as &[u8]);
        value
    }

    assert_eq!(read_u16_u(&[0, 6]), 6);
}

#[test]
fn test_read_u24() {
    fn read_u24_u(mut bytes: &[u8]) -> u32 {
        let value = read_u24(&mut bytes).unwrap();
        assert_eq!(bytes, &[] as &[u8]);
        value
    }

    assert_eq!(read_u24_u(&[0, 0, 6]), 6);
}

#[test]
fn test_read_u32() {
    fn read_u32_u(mut bytes: &[u8]) -> u32 {
        let value = read_u32(&mut bytes).unwrap();
        assert_eq!(bytes, &[] as &[u8]);
        value
    }

    assert_eq!(read_u32_u(&[0, 0, 0, 6]), 6);
}

#[test]
fn test_read_header_chunk() {
    let mut data = &[77u8, 84, 104, 100, 0, 0, 0, 6, 0, 1, 0, 3, 4, 0] as &[u8];
    let header_chunk = read_header_chunk(&mut data).unwrap();
    assert_eq!(data, &[] as &[u8]);
    assert_eq!(header_chunk.format, Format::MultiTrack);
    assert_eq!(header_chunk.tracks, 3);
    assert_eq!(header_chunk.division, 1024);
}

#[test]
fn read_bytes_takes_exactly_what_is_asked() {
    let mut cursor = &[1u8, 2, 3, 4, 5] as &[u8];
    let taken = midi::read::read_bytes(&mut cursor, 2).unwrap();
    assert_eq!(taken, &[1u8, 2]);
    assert_eq!(cursor, &[3u8, 4, 5]);
    let none = midi::read::read_bytes(&mut cursor, 0).unwrap();
    assert_eq!(none, &[] as &[u8]);
    assert_eq!(cursor, &[3u8, 4, 5]);
    let all = midi::read::read_bytes(&mut cursor, 3).unwrap();
    assert_eq!(all, &[3u8, 4, 5]);
    assert_eq!(cursor, &[] as &[u8]);
}

#[test]
fn read_bytes_is_fatal_when_short() {
    let mut cursor = &[1u8, 2] as &[u8];
    assert_eq!(midi::read::read_bytes(&mut cursor, 3).unwrap_err(), ErrorKind::Fatal);
    let mut empty = &[] as &[u8];
    assert_eq!(midi::read::read_u8(&mut empty).unwrap_err(), ErrorKind::Fatal);
    assert_eq!(read_u7(&mut empty).unwrap_err(), ErrorKind::Fatal);
}

#[test]
fn fixed_width_reads_are_big_endian() {
    let mut cursor = &[0x12u8, 0x34, 0x56, 0x78, 0x9a, 0xbc, 0xde, 0xf0, 0x11, 0x22] as &[u8];
    assert_eq!(midi::read::read_u8(&mut cursor).unwrap(), 0x12);
    assert_eq!(read_u16(&mut cursor).unwrap(), 0x3456);
    assert_eq!(read_u24(&mut cursor).unwrap(), 0x789abc);
    assert_eq!(read_u32(&mut cursor).unwrap(), 0xdef01122);
    assert_eq!(cursor, &[] as &[u8]);
}

#[test]
fn fixed_width_reads_reach_their_maximum() {
    let mut cursor = &[0xffu8; 9] as &[u8];
    assert_eq!(read_u16(&mut cursor).unwrap(), u16::MAX);
    assert_eq!(read_u24(&mut cursor).unwrap(), 0x00ff_ffff);
    assert_eq!(read_u32(&mut cursor).unwrap(), u32::MAX);
}

#[test]
fn fixed_width_reads_are_fatal_when_short() {
    let mut one = &[1u8] as &[u8];
    assert_eq!(read_u16(&mut one).unwrap_err(), ErrorKind::Fatal);
    let mut two = &[1u8, 2] as &[u8];
    assert_eq!(read_u24(&mut two).unwrap_err(), ErrorKind::Fatal);
    let mut three = &[1u8, 2, 3] as &[u8];
    assert_eq!(read_u32(&mut three).unwrap_err(), ErrorKind::Fatal);
}

#[test]
fn expect_reads_compare_with_the_literal() {
    let mut cursor = b"MThdrest" as &[u8];
    assert!(midi::read::expect_bytes(&mut cursor, b"MThd").is_ok());
    assert_eq!(cursor, b"rest");
    let mut wrong = b"MTrkrest" as &[u8];
    assert_eq!(midi::read::expect_bytes(&mut wrong, b"MThd").unwrap_err(), ErrorKind::Invalid);
    let mut short = b"MTh" as &[u8];
    assert_eq!(midi::read::expect_bytes(&mut short, b"MThd").unwrap_err(), ErrorKind::Fatal);

    let mut byte = &[5u8, 6] as &[u8];
    assert!(midi::read::expect_u8(&mut byte, 5).is_ok());
    assert_eq!(byte, &[6u8]);
    assert_eq!(midi::read::expect_u8(&mut byte, 5).unwrap_err(), ErrorKind::Invalid);
    let mut empty = &[] as &[u8];
    assert_eq!(midi::read::expect_u8(&mut empty, 5).unwrap_err(), ErrorKind::Fatal);

    let mut word = &[0u8, 0, 0, 6, 9] as &[u8];
    assert!(midi::read::expect_u32(&mut word, 6).is_ok());
    assert_eq!(word, &[9u8]);
    let mut other = &[0u8, 0, 0, 7] as &[u8];
    assert_eq!(midi::read::expect_u32(&mut other, 6).unwrap_err(), ErrorKind::Invalid);
    let mut cut = &[0u8, 0, 0] as &[u8];
    assert_eq!(midi::read::expect_u32(&mut cut, 6).unwrap_err(), ErrorKind::Fatal);
}

#[test]
fn vlq_leaves_the_bytes_after_it() {
    let mut cursor = &[0x81u8, 0x00, 0x55, 0x66] as &[u8];
    assert_eq!(read_vlq(&mut cursor).unwrap(), 0x80);
    assert_eq!(cursor, &[0x55u8, 0x66]);
}

#[test]
fn vlq_of_four_bytes_is_the_longest() {
    let mut largest = &[0xffu8, 0xff, 0xff, 0x7f] as &[u8];
    assert_eq!(read_vlq(&mut largest).unwrap(), 0x0fff_ffff);
    assert_eq!(largest, &[] as &[u8]);
    let mut padded = &[0x80u8, 0x80, 0x80, 0x01] as &[u8];
    assert_eq!(read_vlq(&mut padded).unwrap(), 1);
    let mut five = &[0x81u8, 0x80, 0x80, 0x80, 0x00] as &[u8];
    assert_eq!(read_vlq(&mut five).unwrap_err(), ErrorKind::Invalid);
    let mut four_and_end = &[0x81u8, 0x80, 0x80, 0x80] as &[u8];
    assert_eq!(read_vlq(&mut four_and_end).unwrap_err(), ErrorKind::Invalid);
}

#[test]
fn vlq_is_fatal_when_cut_short() {
    let mut empty = &[] as &[u8];
    assert_eq!(read_vlq(&mut empty).unwrap_err(), ErrorKind::Fatal);
    let mut one = &[0x81u8] as &[u8];
    assert_eq!(read_vlq(&mut one).unwrap_err(), ErrorKind::Fatal);
    let mut three = &[0x81u8, 0x82, 0x83] as &[u8];
    assert_eq!(read_vlq(&mut three).unwrap_err(), ErrorKind::Fatal);
}

#[test]
fn read_data_takes_a_measured_span() {
    let mut cursor = &[0x03u8, 0xaa, 0xbb, 0xcc, 0xdd] as &[u8];
    assert_eq!(midi::read::read_data(&mut cursor).unwrap(), &[0xaau8, 0xbb, 0xcc]);
    assert_eq!(cursor, &[0xddu8]);
    let mut empty_span = &[0x00u8, 0x01] as &[u8];
    assert_eq!(midi::read::read_data(&mut empty_span).unwrap(), &[] as &[u8]);
    assert_eq!(empty_span, &[0x01u8]);
    let mut short = &[0x03u8, 0xaa] as &[u8];
    assert_eq!(midi::read::read_data(&mut short).unwrap_err(), ErrorKind::Fatal);
    let mut text = &[0x02u8, b'h', b'i'] as &[u8];
    assert_eq!(midi::read::read_text(&mut text).unwrap().raw(), b"hi");
}

#[test]
fn read_data_with_a_two_byte_length() {
    let mut bytes = vec![0x81u8, 0x00];
    bytes.extend(std::iter::repeat(7u8).take(128));
    bytes.push(9);
    let mut cursor = bytes.as_slice();
    let span = midi::read::read_data(&mut cursor).unwrap();
    assert_eq!(span.len(), 128);
    assert!(span.iter().all(|b| *b == 7));
    assert_eq!(cursor, &[9u8]);
}

#[test]
fn header_formats() {
    let mut single = &[77u8, 84, 104, 100, 0, 0, 0, 6, 0, 0, 0, 1, 0, 96, 0xaa] as &[u8];
    let header = read_header_chunk(&mut single).unwrap();
    assert_eq!(header.format, Format::Single);
    assert_eq!(header.tracks, 1);
    assert_eq!(header.division, 96);
    assert_eq!(single, &[0xaau8]);
    let mut multi = &[77u8, 84, 104, 100, 0, 0, 0, 6, 0, 2, 0xff, 0xff, 0xe7, 0x28] as &[u8];
    let header = read_header_chunk(&mut multi).unwrap();
    assert_eq!(header.format, Format::MultiSequence);
    assert_eq!(header.tracks, 0xffff);
    assert_eq!(header.division, 0xe728);
}

#[test]
fn header_errors_name_their_step() {
    let full = [77u8, 84, 104, 100, 0, 0, 0, 6, 0, 1, 0, 3, 4, 0];
    let steps = [
        (0, "read_header_chunk: header type must be 'MThd'"),
        (3, "read_header_chunk: header type must be 'MThd'"),
        (4, "read_header_chunk: header data length should be 6"),
        (7, "read_header_chunk: header data length should be 6"),
        (8, "read_header_chunk: header must specify format"),
        (9, "read_header_chunk: header must specify format"),
        (10, "read_header_chunk: header must specify tracks"),
        (11, "read_header_chunk: header must specify tracks"),
        (12, "read_header_chunk: header must specify division"),
        (13, "read_header_chunk: header must specify division"),
    ];
    for (len, step) in steps {
        let mut cursor = &full[..len];
        let error = read_header_chunk(&mut cursor).unwrap_err();
        assert_eq!(error.kind, ErrorKind::Fatal);
        assert_eq!(error.context, step);
    }

    let mut wrong_type = &[77u8, 84, 114, 107, 0, 0, 0, 6, 0, 1, 0, 3, 4, 0] as &[u8];
    let error = read_header_chunk(&mut wrong_type).unwrap_err();
    assert_eq!(error.kind, ErrorKind::Invalid);
    assert_eq!(error.context, "read_header_chunk: header type must be 'MThd'");

    let mut wrong_len = &[77u8, 84, 104, 100, 0, 0, 0, 7, 0, 1, 0, 3, 4, 0] as &[u8];
    let error = read_header_chunk(&mut wrong_len).unwrap_err();
    assert_eq!(error.kind, ErrorKind::Invalid);
    assert_eq!(error.context, "read_header_chunk: header data length should be 6");

    let mut wrong_format = &[77u8, 84, 104, 100, 0, 0, 0, 6, 0, 3, 0, 3, 4, 0] as &[u8];
    let error = read_header_chunk(&mut wrong_format).unwrap_err();
    assert_eq!(error.kind, ErrorKind::Invalid);
    assert_eq!(error.context, "read_header_chunk: header must specify format");

    let mut high_format = &[77u8, 84, 104, 100, 0, 0, 0, 6, 1, 0, 0, 3, 4, 0] as &[u8];
    let error = read_header_chunk(&mut high_format).unwrap_err();
    assert_eq!(error.kind, ErrorKind::Invalid);
}

#[test]
fn read_format_names_three_codes() {
    let mut cursor = &[0u8, 0, 0, 1, 0, 2, 0, 3] as &[u8];
    assert_eq!(midi::read::read_format(&mut cursor).unwrap(), Format::Single);
    assert_eq!(midi::read::read_format(&mut cursor).unwrap(), Format::MultiTrack);
    assert_eq!(midi::read::read_format(&mut cursor).unwrap(), Format::MultiSequence);
    assert_eq!(midi::read::read_format(&mut cursor).unwrap_err(), ErrorKind::Invalid);
    let mut short = &[0u8] as &[u8];
    assert_eq!(midi::read::read_format(&mut short).unwrap_err(), ErrorKind::Fatal);
}
