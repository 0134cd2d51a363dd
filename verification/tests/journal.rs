use dynstaller::monitor::journal::{parse_records, JournalFormatError, UsnRecord};

fn put(data: &mut Vec<u8>, at: usize, bytes: &[u8]) {
    data[at..at + bytes.len()].copy_from_slice(bytes);
}

/// A record of version 2 with the given number and name.
fn record_v2(usn: i64, file: u64, reason: u32, name: &str) -> Vec<u8> {
    let units: Vec<u8> = name.encode_utf16().flat_map(|u| u.to_le_bytes()).collect();
    let length = (60 + units.len()).max(64);
    let mut data = vec![0u8; length];
    put(&mut data, 0, &(length as u32).to_le_bytes());
    put(&mut data, 4, &2u16.to_le_bytes());
    put(&mut data, 8, &file.to_le_bytes());
    put(&mut data, 16, &5u64.to_le_bytes());
    put(&mut data, 24, &usn.to_le_bytes());
    put(&mut data, 32, &7i64.to_le_bytes());
    put(&mut data, 40, &reason.to_le_bytes());
    put(&mut data, 56, &(units.len() as u16).to_le_bytes());
    put(&mut data, 58, &60u16.to_le_bytes());
    put(&mut data, 60, &units);
    data
}

fn record_v3(usn: i64, file: u128, reason: u32, name: &str) -> Vec<u8> {
    let units: Vec<u8> = name.encode_utf16().flat_map(|u| u.to_le_bytes()).collect();
    let length = (76 + units.len()).max(80);
    let mut data = vec![0u8; length];
    put(&mut data, 0, &(length as u32).to_le_bytes());
    put(&mut data, 4, &3u16.to_le_bytes());
    put(&mut data, 8, &file.to_le_bytes());
    put(&mut data, 40, &usn.to_le_bytes());
    put(&mut data, 56, &reason.to_le_bytes());
    put(&mut data, 72, &(units.len() as u16).to_le_bytes());
    put(&mut data, 74, &76u16.to_le_bytes());
    put(&mut data, 76, &units);
    data
}

fn record_v4(usn: i64, extents: &[(i64, i64)]) -> Vec<u8> {
    let length = 64 + 16 * extents.len().max(1);
    let mut data = vec![0u8; length];
    put(&mut data, 0, &(length as u32).to_le_bytes());
    put(&mut data, 4, &4u16.to_le_bytes());
    put(&mut data, 40, &usn.to_le_bytes());
    put(&mut data, 60, &(extents.len() as u16).to_le_bytes());
    put(&mut data, 62, &((16 * extents.len()) as u16).to_le_bytes());
    for (i, (offset, len)) in extents.iter().enumerate() {
        put(&mut data, 64 + 16 * i, &offset.to_le_bytes());
        put(&mut data, 72 + 16 * i, &len.to_le_bytes());
    }
    data
}

fn reply(next: i64, records: &[Vec<u8>]) -> Vec<u8> {
    let mut data = next.to_le_bytes().to_vec();
    for record in records {
        data.extend_from_slice(record);
    }
    data
}

#[test]
fn a_reply_without_records_names_the_next() {
    let (next, records) = parse_records(&reply(-3, &[])).unwrap();
    assert_eq!(next, -3);
    assert!(records.is_empty());
}

#[test]
fn records_of_every_version_are_read() {
    let data = reply(
        900,
        &[
            record_v2(100, 42, 0x100, "a.txt"),
            record_v3(200, 1 << 70, 0x200, "bé"),
            record_v4(300, &[(1, 2), (-3, 4)]),
        ],
    );
    let (next, records) = parse_records(&data).unwrap();
    assert_eq!(next, 900);
    assert_eq!(records.len(), 3);
    match &records[0] {
        UsnRecord::V2 { record, filename } => {
            assert_eq!(record.usn, 100);
            assert_eq!(record.file_reference_number, 42);
            assert_eq!(record.parent_file_reference_number, 5);
            assert_eq!(record.time_stamp, 7);
            assert_eq!(record.reason, 0x100);
            assert_eq!(String::from_utf16_lossy(filename), "a.txt");
        }
        _ => panic!("not of version 2"),
    }
    match &records[1] {
        UsnRecord::V3 { record, filename } => {
            assert_eq!(record.usn, 200);
            assert_eq!(record.file_reference_number, 1 << 70);
            assert_eq!(String::from_utf16_lossy(filename), "bé");
        }
        _ => panic!("not of version 3"),
    }
    match &records[2] {
        UsnRecord::V4 { record, extents } => {
            assert_eq!(record.usn, 300);
            assert_eq!(extents.len(), 2);
            assert_eq!((extents[0].offset, extents[0].length), (1, 2));
            assert_eq!((extents[1].offset, extents[1].length), (-3, 4));
        }
        _ => panic!("not of version 4"),
    }
}

#[test]
fn a_record_may_have_no_name() {
    let data = reply(1, &[record_v2(1, 1, 1, "")]);
    match &parse_records(&data).unwrap().1[0] {
        UsnRecord::V2 { filename, .. } => assert!(filename.is_empty()),
        _ => panic!("not of version 2"),
    }
}

#[test]
fn records_take_every_byte_of_a_reply() {
    let parts = [record_v2(1, 1, 1, "abc"), record_v3(2, 2, 2, "de")];
    let data = reply(3, &parts);
    let (_, records) = parse_records(&data).unwrap();
    let mut total = 8;
    for record in &records {
        total += match record {
            UsnRecord::V2 { record, .. } => record.record_length,
            UsnRecord::V3 { record, .. } => record.record_length,
            UsnRecord::V4 { record, .. } => record.record_length,
        } as usize;
    }
    assert_eq!(total, data.len());
}

#[test]
fn two_replies_can_be_put_together() {
    let first = reply(5, &[record_v2(1, 1, 1, "a")]);
    let second = reply(9, &[record_v2(6, 2, 1, "b")]);
    let mut both = first.clone();
    both.extend_from_slice(&second[8..]);
    let (next, records) = parse_records(&both).unwrap();
    assert_eq!(next, 5);
    assert_eq!(records.len(), 2);
}

fn error_of(data: &[u8]) -> JournalFormatError {
    match parse_records(data) {
        Ok(_) => panic!("the reply was accepted"),
        Err(e) => e,
    }
}

#[test]
fn a_reply_needs_the_number_of_the_next_record() {
    assert!(error_of(&[0; 7]) == JournalFormatError::MissingNextUsn);
    assert!(error_of(&[]) == JournalFormatError::MissingNextUsn);
}

#[test]
fn a_record_needs_its_header() {
    assert!(error_of(&reply(0, &[vec![0; 7]])) == JournalFormatError::HeaderExceedsData);
}

#[test]
fn a_record_must_not_exceed_the_reply() {
    let mut record = record_v2(1, 1, 1, "a");
    let length = record.len() as u32 + 1;
    put(&mut record, 0, &length.to_le_bytes());
    assert!(error_of(&reply(0, &[record])) == JournalFormatError::RecordExceedsData);
}

#[test]
fn the_fixed_part_must_not_exceed_the_reply() {
    for version in [2u16, 3, 4] {
        let mut record = vec![0u8; 16];
        put(&mut record, 0, &16u32.to_le_bytes());
        put(&mut record, 4, &version.to_le_bytes());
        assert!(error_of(&reply(0, &[record])) == JournalFormatError::FixedPartExceedsData);
    }
}

#[test]
fn the_variable_part_must_not_exceed_the_record() {
    let mut record = record_v2(1, 1, 1, "ab");
    put(&mut record, 56, &6u16.to_le_bytes());
    assert!(error_of(&reply(0, &[record])) == JournalFormatError::VariablePartExceedsRecord);
    let mut record = record_v4(1, &[(1, 2)]);
    put(&mut record, 62, &32u16.to_le_bytes());
    assert!(error_of(&reply(0, &[record])) == JournalFormatError::VariablePartExceedsRecord);
}

#[test]
fn a_name_holds_whole_units() {
    let mut record = record_v2(1, 1, 1, "ab");
    put(&mut record, 56, &3u16.to_le_bytes());
    assert!(error_of(&reply(0, &[record])) == JournalFormatError::OddNameLength);
}

#[test]
fn extents_are_whole() {
    let mut record = record_v4(1, &[(1, 2)]);
    put(&mut record, 62, &8u16.to_le_bytes());
    assert!(error_of(&reply(0, &[record])) == JournalFormatError::PartialExtent);
}

#[test]
fn other_versions_are_refused() {
    let mut record = record_v2(1, 1, 1, "a");
    put(&mut record, 4, &5u16.to_le_bytes());
    assert!(
        error_of(&reply(0, &[record])) == JournalFormatError::UnsupportedVersion { version: 5 }
    );
}

#[test]
fn a_record_takes_some_room() {
    let mut record = record_v2(1, 1, 1, "");
    put(&mut record, 0, &0u32.to_le_bytes());
    assert!(error_of(&reply(0, &[record])) == JournalFormatError::EmptyRecord);
}
