use pphd8extract::pphd8parser::{PPHD8FileData, ParseError, VAGFileEntry, VAGFile, VAGHeader};
use pphd8extract::work::extract_container;

fn put_le(buf: &mut Vec<u8>, off: usize, v: u32) {
    if buf.len() < off + 4 {
        buf.resize(off + 4, 0);
    }
    buf[off..off + 4].copy_from_slice(&v.to_le_bytes());
}

/// A container with index base `base` and data start `data_start`, whose index holds
/// `records` from 64 bytes after the base on, followed by `tail` at the data start.
fn container(base: u32, data_start: u32, records: &[(u32, u32, u32)], tail: &[u8]) -> Vec<u8> {
    let mut buf = vec![0u8; 0x40];
    put_le(&mut buf, 0x38, base);
    put_le(&mut buf, 0xC, data_start);
    let mut c = base as usize + 64;
    for &(offset, freq, size) in records {
        put_le(&mut buf, c, offset);
        put_le(&mut buf, c + 4, freq);
        put_le(&mut buf, c + 8, size);
        c += 16;
    }
    if buf.len() < data_start as usize {
        buf.resize(data_start as usize, 0);
    }
    buf.extend_from_slice(tail);
    buf
}

const NULL: (u32, u32, u32) = (0xFFFF_FFFF, 0xFFFF_FFFF, 0xFFFF_FFFF);

#[test]
fn one_record_then_null_records_gives_one_entry() {
    let body: Vec<u8> = (0u8..16).collect();
    let data = container(0, 0x80, &[(0, 44100, 16), NULL, NULL, NULL], &body);
    let parsed = PPHD8FileData::parse_from_bytes(data).ok().unwrap();
    assert_eq!(parsed.start_of_index(), 0x40);
    assert_eq!(parsed.start_of_data(), 0x80);
    assert_eq!(parsed.n_files(), 1);
    assert_eq!(
        parsed.entries(),
        &[VAGFileEntry { frequency: 44100, size: 16, offset_from_data_start: 0 }]
    );
    let vags = parsed.get_vag_files().ok().unwrap();
    assert_eq!(vags.len(), 1);
    assert_eq!(vags[0].body(), &body[..]);
    assert_eq!(vags[0].frequency(), 44100);
    assert_eq!(vags[0].size(), 16);
    assert_eq!(vags[0].channels(), 3);
    let mut name = [0u8; 32];
    name[0] = b'L';
    name[1] = b'D';
    assert_eq!(vags[0].filename(), &name);
}

#[test]
fn data_start_right_after_one_record() {
    let data = container(0, 0x50, &[(0, 44100, 16)], &[7u8; 16]);
    let parsed = PPHD8FileData::parse_from_bytes(data).ok().unwrap();
    assert_eq!(
        parsed.entries(),
        &[VAGFileEntry { frequency: 44100, size: 16, offset_from_data_start: 0 }]
    );
}

#[test]
fn null_record_is_dropped() {
    let data = container(0, 0x50, &[NULL], &[]);
    let parsed = PPHD8FileData::parse_from_bytes(data).ok().unwrap();
    assert_eq!(parsed.n_files(), 0);
    assert_eq!(parsed.get_vag_files().ok().unwrap().len(), 0);
}

#[test]
fn partly_null_record_is_kept() {
    let data = container(0, 0x50, &[(0xFFFF_FFFF, 0xFFFF_FFFF, 0)], &[]);
    let parsed = PPHD8FileData::parse_from_bytes(data).ok().unwrap();
    assert_eq!(parsed.n_files(), 1);
}

#[test]
fn retained_count_skips_only_null_records() {
    let records = [(0, 1, 2), NULL, (2, 3, 0), NULL, NULL, (0, 5, 1)];
    let data = container(0x10, 0x50 + 16 * 6, &records, &[1, 2, 3]);
    let parsed = PPHD8FileData::parse_from_bytes(data).ok().unwrap();
    assert_eq!(parsed.start_of_index(), 0x50);
    assert_eq!(parsed.n_files(), 3);
    let entries = parsed.entries();
    assert_eq!(entries[0], VAGFileEntry { frequency: 1, size: 2, offset_from_data_start: 0 });
    assert_eq!(entries[1], VAGFileEntry { frequency: 3, size: 0, offset_from_data_start: 2 });
    assert_eq!(entries[2], VAGFileEntry { frequency: 5, size: 1, offset_from_data_start: 0 });
}

#[test]
fn record_ending_exactly_at_data_start_is_read() {
    // Only 12 bytes are left before the data section: the padding word is not needed.
    let data = container(0, 0x4C, &[(0, 8000, 2)], &[9, 9]);
    let parsed = PPHD8FileData::parse_from_bytes(data).ok().unwrap();
    assert_eq!(parsed.n_files(), 1);
    assert_eq!(parsed.get_vag_files().ok().unwrap()[0].body(), &[9, 9]);
}

#[test]
fn record_shorter_than_twelve_bytes_is_not_read() {
    let data = container(0, 0x4B, &[(0, 8000, 2)], &[9, 9]);
    let parsed = PPHD8FileData::parse_from_bytes(data).ok().unwrap();
    assert_eq!(parsed.n_files(), 0);
}

#[test]
fn index_after_data_start_gives_no_entries() {
    let data = container(0x100, 0x40, &[], &[]);
    let parsed = PPHD8FileData::parse_from_bytes(data).ok().unwrap();
    assert_eq!(parsed.n_files(), 0);
}

#[test]
fn short_header_is_io_error() {
    let r = PPHD8FileData::parse_from_bytes(vec![0u8; 0x3B]);
    assert!(matches!(r, Err(ParseError::IOError(_))));
    let r = PPHD8FileData::parse_from_bytes(Vec::new());
    assert!(matches!(r, Err(ParseError::IOError(_))));
}

#[test]
fn index_past_end_of_file_is_io_error() {
    let mut data = vec![0u8; 0x40];
    put_le(&mut data, 0x38, 0);
    put_le(&mut data, 0xC, 0x80);
    data.extend_from_slice(&[0u8; 8]);
    let r = PPHD8FileData::parse_from_bytes(data);
    assert!(matches!(r, Err(ParseError::IOError(_))));
}

#[test]
fn entry_offsets_are_relative_to_data_start() {
    let data = container(0, 0x60, &[(4, 100, 2), (0, 200, 4)], &[1, 2, 3, 4, 5, 6]);
    let vags = PPHD8FileData::parse_from_bytes(data).ok().unwrap().get_vag_files().ok().unwrap();
    assert_eq!(vags[0].body(), &[5, 6]);
    assert_eq!(vags[0].frequency(), 100);
    assert_eq!(vags[1].body(), &[1, 2, 3, 4]);
    assert_eq!(vags[1].frequency(), 200);
}

#[test]
fn body_past_end_of_file_is_incomplete() {
    let data = container(0, 0x60, &[(0, 100, 2), (2, 100, 10)], &[1, 2, 3, 4, 5]);
    let parsed = PPHD8FileData::parse_from_bytes(data).ok().unwrap();
    match parsed.get_vag_files() {
        Err(ParseError::IncompleteVag { entry_index, expected_size, actual_size }) => {
            assert_eq!(entry_index, 1);
            assert_eq!(expected_size, 10);
            assert_eq!(actual_size, 3);
        }
        _ => panic!("expected an incomplete body"),
    }
    assert_eq!(parsed.get_vag_file(0).ok().unwrap().body(), &[1, 2]);
}

#[test]
fn body_starting_past_end_of_file_is_incomplete() {
    let data = container(0, 0x50, &[(100, 100, 4)], &[1, 2]);
    let parsed = PPHD8FileData::parse_from_bytes(data).ok().unwrap();
    match parsed.get_vag_file(0) {
        Err(ParseError::IncompleteVag { entry_index, expected_size, actual_size }) => {
            assert_eq!(entry_index, 0);
            assert_eq!(expected_size, 4);
            assert_eq!(actual_size, 0);
        }
        _ => panic!("expected an incomplete body"),
    }
}

#[test]
fn empty_body_is_complete() {
    let data = container(0, 0x50, &[(100, 100, 0)], &[1, 2]);
    let parsed = PPHD8FileData::parse_from_bytes(data).ok().unwrap();
    let vag = parsed.get_vag_file(0).ok().unwrap();
    assert_eq!(vag.size(), 0);
    assert!(vag.body().is_empty());
}

#[test]
fn extraction_twice_gives_identical_bodies() {
    let data = container(0, 0x60, &[(0, 100, 3), (3, 200, 2)], &[1, 2, 3, 4, 5]);
    let first = extract_container(data.clone()).ok().unwrap();
    let second = extract_container(data).ok().unwrap();
    assert_eq!(first.len(), second.len());
    for (a, b) in first.iter().zip(second.iter()) {
        assert_eq!(a.body(), b.body());
        assert_eq!(a.to_bytes(), b.to_bytes());
    }
}

#[test]
fn extract_container_reports_each_failure() {
    assert!(matches!(extract_container(vec![1, 2, 3]), Err(ParseError::IOError(_))));
    let data = container(0, 0x50, &[(0, 100, 9)], &[1]);
    assert!(matches!(
        extract_container(data),
        Err(ParseError::IncompleteVag { entry_index: 0, expected_size: 9, actual_size: 1 })
    ));
}

#[test]
fn io_error_converts_into_parse_error() {
    let e = std::io::Error::new(std::io::ErrorKind::NotFound, "missing");
    let p: ParseError = ParseError::from(e);
    match p {
        ParseError::IOError(inner) => assert_eq!(inner.kind(), std::io::ErrorKind::NotFound),
        _ => panic!("expected an IO error"),
    }
}

fn sample_vag_file() -> VAGFile {
    let mut name = [0u8; 32];
    name[0] = b'L';
    name[1] = b'D';
    VAGFile::new(22050, 4, 3, name, vec![0xDE, 0xAD, 0xBE, 0xEF])
}

#[test]
fn vag_bytes_layout() {
    // The header is the listed fields: 4 + 4 + 4 + 4 + 4 + 12 + 32 = 64 bytes.
    let bytes = sample_vag_file().to_bytes();
    assert_eq!(bytes.len(), 68);
    let mut expected: Vec<u8> = Vec::new();
    expected.extend_from_slice(b"VAGp");
    expected.extend_from_slice(&[0, 0, 0, 3]);
    expected.extend_from_slice(&[0, 0, 0, 0]);
    expected.extend_from_slice(&[0, 0, 0, 4]);
    expected.extend_from_slice(&[0, 0, 0x56, 0x22]);
    expected.extend_from_slice(&[0u8; 12]);
    expected.extend_from_slice(b"LD");
    expected.extend_from_slice(&[0u8; 30]);
    expected.extend_from_slice(&[0xDE, 0xAD, 0xBE, 0xEF]);
    assert_eq!(bytes, expected);
}

#[test]
fn header_round_trip() {
    let bytes = sample_vag_file().to_bytes();
    assert_eq!(
        VAGFile::read_header(&bytes),
        Some(VAGHeader { channels: 3, size: 4, frequency: 22050 })
    );
    let big = VAGFile::new(0x0102_0304, 0, 0xA0B0_C0D0, [7u8; 32], Vec::new());
    let bytes = big.to_bytes();
    assert_eq!(bytes.len(), 64);
    assert_eq!(&bytes[4..8], &[0xA0, 0xB0, 0xC0, 0xD0]);
    assert_eq!(&bytes[16..20], &[1, 2, 3, 4]);
    assert_eq!(
        VAGFile::read_header(&bytes),
        Some(VAGHeader { channels: 0xA0B0_C0D0, size: 0, frequency: 0x0102_0304 })
    );
}

#[test]
fn read_header_rejects_short_or_foreign_bytes() {
    assert_eq!(VAGFile::read_header(&[0u8; 47]), None);
    assert_eq!(VAGFile::read_header(&[0u8; 64]), None);
    let mut bytes = sample_vag_file().to_bytes();
    bytes[3] = b'P';
    assert_eq!(VAGFile::read_header(&bytes), None);
    bytes[3] = b'p';
    assert!(VAGFile::read_header(&bytes[..64]).is_some());
    assert_eq!(VAGFile::read_header(&bytes[..63]), None);
}
