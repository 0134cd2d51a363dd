use dynstaller::given::GivenPath;
use dynstaller::item::ItemMetadata;
use dynstaller::monitor::journal::{JournalFormatError, UsnRecord};
use dynstaller::monitor::usn::{
    parse_name_info, FileId, FileLookup, JournalError, NameInfoError, Usn, UsnJournalData,
    UsnMonitor, UsnMonitorError, VolumeError, SCRATCH_SIZE,
};
use dynstaller::options::{MonitorMethod, MonitorOptions, TrackOptions};
use dynstaller::path::{PathComponent, PathPrefix, PrefixKind, WinPath};
use dynstaller::text::encode_utf16;

fn prefix(kind: PrefixKind, text: &str) -> PathComponent {
    PathComponent::Prefix(PathPrefix::new(kind, encode_utf16(text)).unwrap())
}

fn path(components: Vec<PathComponent>) -> WinPath {
    WinPath { components }
}

fn name(text: &str) -> PathComponent {
    PathComponent::Normal(encode_utf16(text))
}

fn device(usn: &Usn) -> String {
    String::from_utf16_lossy(&usn.device)
}

fn volume_error(r: Result<Usn, VolumeError>) -> VolumeError {
    match r {
        Ok(_) => panic!("there is a volume"),
        Err(e) => e,
    }
}

fn options() -> MonitorOptions {
    MonitorOptions {
        method: MonitorMethod::Usn,
        path: GivenPath::of(path(vec![
            prefix(PrefixKind::Disk(b'C'), "C:"),
            PathComponent::RootDir,
        ])),
        creation: true,
        deletion: true,
        modification: true,
        renaming: true,
        add_registry: false,
        procmon_path: None,
    }
}

fn monitor(options: MonitorOptions) -> UsnMonitor {
    match UsnMonitor::new(options, TrackOptions { pid: None, no_children: false }) {
        Ok(monitor) => monitor,
        Err(e) => panic!("no monitor: {:?}", e),
    }
}

fn query(first_usn: i64, next_usn: i64) -> UsnJournalData {
    let mut data = vec![0u8; 80];
    data[0..8].copy_from_slice(&77u64.to_le_bytes());
    data[8..16].copy_from_slice(&first_usn.to_le_bytes());
    data[16..24].copy_from_slice(&next_usn.to_le_bytes());
    data[56..58].copy_from_slice(&2u16.to_le_bytes());
    data[58..60].copy_from_slice(&3u16.to_le_bytes());
    Usn::query_journal(&data).unwrap()
}

fn record(usn: i64, file: u64, reason: u32, name: &str) -> Vec<u8> {
    let units: Vec<u8> = name.encode_utf16().flat_map(|u| u.to_le_bytes()).collect();
    let length = (60 + units.len()).max(64);
    let mut data = vec![0u8; length];
    data[0..4].copy_from_slice(&(length as u32).to_le_bytes());
    data[4..6].copy_from_slice(&2u16.to_le_bytes());
    data[8..16].copy_from_slice(&file.to_le_bytes());
    data[24..32].copy_from_slice(&usn.to_le_bytes());
    data[40..44].copy_from_slice(&reason.to_le_bytes());
    data[56..58].copy_from_slice(&(units.len() as u16).to_le_bytes());
    data[58..60].copy_from_slice(&60u16.to_le_bytes());
    data[60..60 + units.len()].copy_from_slice(&units);
    data
}

/// A buffer that holds a reply, and the size of the reply.
fn filled(next: i64, records: &[Vec<u8>]) -> (Vec<u8>, u32) {
    let mut data = next.to_le_bytes().to_vec();
    for record in records {
        data.extend_from_slice(record);
    }
    let size = data.len() as u32;
    data.resize(SCRATCH_SIZE, 0);
    (data, size)
}

fn numbers(records: &[UsnRecord]) -> Vec<i64> {
    records
        .iter()
        .map(|r| match r {
            UsnRecord::V2 { record, .. } => record.usn,
            UsnRecord::V3 { record, .. } => record.usn,
            UsnRecord::V4 { record, .. } => record.usn,
        })
        .collect()
}

#[test]
fn a_letter_names_a_device() {
    assert_eq!(device(&Usn::from_letter('C').unwrap()), "\\\\.\\C:\0");
    assert!(volume_error(Usn::from_letter('\0')) == VolumeError::ContainsNul { position: 4 });
}

#[test]
fn the_root_of_a_disk_names_its_device() {
    let disk = path(vec![prefix(PrefixKind::Disk(b'D'), "d:"), PathComponent::RootDir]);
    assert_eq!(device(&Usn::from_path(&disk).unwrap()), "\\\\.\\D:\0");
    let bare = path(vec![prefix(PrefixKind::Disk(b'E'), "E:")]);
    assert_eq!(device(&Usn::from_path(&bare).unwrap()), "\\\\.\\E:\0");
    assert_eq!(
        device(&Usn::from_path(&path(vec![PathComponent::RootDir])).unwrap()),
        "\\\\.\\C:\0"
    );
}

#[test]
fn a_share_names_its_device() {
    let kind = PrefixKind::Unc(encode_utf16("server"), vec![0x61, 0xd800]);
    let mut text = encode_utf16("\\\\server\\a");
    text.push(0xd800);
    let unc = PathComponent::Prefix(PathPrefix::new(kind, text).unwrap());
    let share = path(vec![unc, PathComponent::RootDir]);
    assert_eq!(device(&Usn::from_path(&share).unwrap()), "\\\\?\\UNC\\server\\a\u{fffd}\0");
}

#[test]
fn any_other_prefix_is_a_device_as_it_stands() {
    let kind = PrefixKind::DeviceNs(encode_utf16("Volume1"));
    let volume = path(vec![prefix(kind, "\\\\.\\Volume1")]);
    assert_eq!(device(&Usn::from_path(&volume).unwrap()), "\\\\.\\Volume1\0");
}

#[test]
fn other_paths_name_no_device() {
    let folder = path(vec![
        prefix(PrefixKind::Disk(b'C'), "C:"),
        PathComponent::RootDir,
        name("Windows"),
    ]);
    assert!(volume_error(Usn::from_path(&folder)) == VolumeError::InvalidPath);
    let relative = path(vec![prefix(PrefixKind::Disk(b'C'), "C:"), name("x")]);
    assert!(volume_error(Usn::from_path(&relative)) == VolumeError::InvalidPath);
    assert!(volume_error(Usn::from_path(&path(vec![]))) == VolumeError::InvalidPath);
    assert!(volume_error(Usn::from_path(&path(vec![name("x")]))) == VolumeError::InvalidPath);
    let below = path(vec![PathComponent::RootDir, name("x")]);
    assert!(volume_error(Usn::from_path(&below)) == VolumeError::InvalidPath);
}

#[test]
fn a_query_is_taken_apart() {
    let data: Vec<u8> = (0..80).collect();
    let q = Usn::query_journal(&data).unwrap();
    assert_eq!(q.usn_journal_id, 0x0706050403020100);
    assert_eq!(q.first_usn, 0x0f0e0d0c0b0a0908);
    assert_eq!(q.next_usn, 0x1716151413121110);
    assert_eq!(q.min_supported_major_version, 0x3938);
    assert_eq!(q.max_supported_major_version, 0x3b3a);
    assert_eq!(q.flags, 0x3f3e3d3c);
    assert_eq!(q.range_track_file_size_threshold, 0x4f4e4d4c4b4a4948);
}

#[test]
fn a_query_of_another_size_is_refused() {
    assert!(Usn::query_journal(&[0; 79]).unwrap_err() == JournalError::InvalidQuerySize);
    assert!(Usn::query_journal(&[0; 81]).unwrap_err() == JournalError::InvalidQuerySize);
}

#[test]
fn a_range_is_asked_for_as_the_journal_allows() {
    let reading = match Usn::read_range(&query(10, 100), 20..500, 0xffff) {
        Ok(reading) => reading,
        Err(e) => panic!("{:?}", e),
    };
    let input = reading.next_request().unwrap();
    assert_eq!(input.start_usn, 20);
    assert_eq!(input.reason_mask, 0xffff);
    assert_eq!(input.bytes_to_wait_for, 0x10000);
    assert_eq!(input.usn_journal_id, 77);
    assert_eq!((input.min_major_version, input.max_major_version), (2, 3));
    assert_eq!((input.return_only_on_close, input.timeout), (0, 0));
    assert_eq!(reading.end, 100);
}

#[test]
fn a_range_must_not_start_before_the_journal() {
    match Usn::read_range(&query(10, 100), 9..50, u32::MAX) {
        Ok(_) => panic!("the range was accepted"),
        Err(e) => assert!(e == JournalError::StartsTooEarly { start: 9, first_usn: 10 }),
    }
}

#[test]
fn an_empty_range_asks_for_nothing() {
    let reading = Usn::read_range(&query(0, 100), 100..200, u32::MAX).unwrap();
    assert!(reading.next_request().is_none());
}

#[test]
fn a_range_is_read_in_several_replies() {
    let mut reading = Usn::read_range(&query(0, 1000), 10..40, u32::MAX).unwrap();
    let (buffer, size) = filled(20, &[record(10, 1, 1, "a"), record(15, 1, 1, "b")]);
    reading.advance(&buffer, size).unwrap();
    assert_eq!(reading.next_request().unwrap().start_usn, 20);
    let (buffer, size) = filled(50, &[record(20, 1, 1, "c"), record(40, 1, 1, "d")]);
    reading.advance(&buffer, size).unwrap();
    assert!(reading.next_request().is_none());
    assert_eq!(numbers(&reading.records), vec![10, 15, 20]);
}

#[test]
fn a_reply_that_ends_with_the_range_is_taken_whole() {
    let mut reading = Usn::read_range(&query(0, 1000), 10..40, u32::MAX).unwrap();
    let (buffer, size) = filled(40, &[record(10, 1, 1, "a"), record(39, 1, 1, "b")]);
    reading.advance(&buffer, size).unwrap();
    assert!(reading.next_request().is_none());
    assert!(!reading.finished);
    assert_eq!(numbers(&reading.records), vec![10, 39]);
}

#[test]
fn a_bad_reply_leaves_the_reading_as_it_was() {
    let mut reading = Usn::read_range(&query(0, 1000), 10..40, u32::MAX).unwrap();
    let buffer = vec![0u8; SCRATCH_SIZE];
    let too_long = SCRATCH_SIZE as u32 + 1;
    assert!(reading.advance(&buffer, too_long).unwrap_err() == JournalError::InvalidReplySize);
    assert!(
        reading.advance(&buffer, 7).unwrap_err()
            == JournalError::Format(JournalFormatError::MissingNextUsn)
    );
    assert!(
        reading.advance(&buffer[..100], 8).unwrap_err()
            == JournalError::ScratchTooSmall { required: 0x10000, provided: 100 }
    );
    assert_eq!(reading.next_request().unwrap().start_usn, 10);
    assert!(reading.records.is_empty());
}

#[test]
fn the_file_table_is_listed_until_nothing_comes() {
    let mut reading = Usn::enum_range(3..9);
    let input = reading.next_request().unwrap();
    assert_eq!((input.low_usn, input.high_usn), (3, 9));
    assert_eq!(input.start_file_reference_number, 0);
    let (buffer, size) = filled(-1, &[record(4, 1, 1, "a")]);
    reading.advance(&buffer, size).unwrap();
    assert_eq!(reading.next_request().unwrap().start_file_reference_number, u64::MAX);
    let (buffer, size) = filled(5, &[]);
    reading.advance(&buffer, size).unwrap();
    assert!(reading.next_request().is_none());
    assert_eq!(numbers(&reading.records), vec![4]);
}

#[test]
fn the_end_of_the_file_table_ends_the_listing() {
    let mut reading = Usn::enum_range(3..9);
    assert!(reading.advance(&[0; 4], 5).unwrap_err() == JournalError::InvalidReplySize);
    reading.end_of_table();
    assert!(reading.next_request().is_none());
}

#[test]
fn reasons_tell_of_changes() {
    let m = monitor(options());
    assert!(m.get_meta(0x100) == ItemMetadata::default().create(true));
    assert!(m.get_meta(0x200) == ItemMetadata::default().delete(true));
    assert!(m.get_meta(0x2000) == ItemMetadata::default().rename(true));
    assert!(m.get_meta(0x10000) == ItemMetadata::default().create(true).delete(true));
    for reason in [1, 2, 4] {
        assert!(m.get_meta(reason) == ItemMetadata::default().modify(true));
    }
    assert!(m.get_meta(0x8000).is_empty());
}

#[test]
fn changes_that_are_not_wanted_are_dropped() {
    let m = monitor(MonitorOptions { creation: false, renaming: false, ..options() });
    assert!(m.get_meta(0x100).is_empty());
    assert!(m.get_meta(0x2000).is_empty());
    assert!(m.get_meta(0x10000) == ItemMetadata::default().delete(true));
}

fn gathered(m: &UsnMonitor, records: &[Vec<u8>]) -> Vec<(FileId, (Vec<u16>, ItemMetadata))> {
    let (buffer, size) = filled(0, records);
    let (_, records) = Usn::enum_journal(&buffer, size).unwrap();
    m.gather(records)
        .entries()
        .iter()
        .map(|(id, (name, meta))| (*id, (name.clone(), *meta)))
        .collect()
}

#[test]
fn records_of_a_file_are_joined_under_its_last_name() {
    let m = monitor(options());
    let found = gathered(
        &m,
        &[
            record(1, 7, 0x100, "old"),
            record(2, 8, 0x1, "other"),
            record(3, 7, 0x2000, "new"),
        ],
    );
    assert_eq!(found.len(), 2);
    assert!(found[0].0 == FileId::Short(7));
    assert_eq!(String::from_utf16_lossy(&found[0].1 .0), "new");
    assert!(found[0].1 .1 == ItemMetadata::default().create(true).rename(true));
    assert!(found[1].0 == FileId::Short(8));
}

#[test]
fn some_records_are_passed_over() {
    let m = monitor(options());
    let found = gathered(
        &m,
        &[
            record(1, 1, 0x8000_0100, "closed"),
            record(2, 2, 0x1100, "old name"),
            record(3, 3, 0x10_0100, "reparse point"),
            record(4, 4, 0x8000, "attributes"),
            record(5, u64::MAX, 0x100, "kept"),
        ],
    );
    assert_eq!(found.len(), 1);
    assert!(found[0].0 == FileId::Short(-1));
}

#[test]
fn a_file_is_listed_where_it_is_found() {
    let mut m = monitor(options());
    m.start(&query(0, 5));
    m.stop(&query(0, 9)).unwrap();
    let changes = vec![
        (FileId::Short(1), (encode_utf16("a"), ItemMetadata::default().create(true))),
        (FileId::Long(2), (encode_utf16("b"), ItemMetadata::default().delete(true))),
    ];
    let lookups = vec![
        FileLookup::Found(path(vec![PathComponent::RootDir, name("a")])),
        FileLookup::Lost { code: -2147024891, reading: path(vec![name("b")]) },
    ];
    let files = match m.get_changed_files(&changes, &lookups) {
        Ok(files) => files,
        Err(e) => panic!("{:?}", e),
    };
    assert_eq!(files.entries().len(), 2);
    let shown: Vec<String> =
        files.entries().iter().map(|(p, _)| String::from_utf16_lossy(&p.to_units())).collect();
    assert_eq!(shown, vec!["\\a", "0x80070005\\b"]);
    assert!(files.entries()[0].1 == ItemMetadata::default().create(true));
}

#[test]
fn of_two_files_with_one_path_the_later_counts() {
    let mut m = monitor(options());
    m.start(&query(0, 5));
    m.stop(&query(0, 9)).unwrap();
    let changes = vec![
        (FileId::Short(1), (vec![], ItemMetadata::default().create(true))),
        (FileId::Short(2), (vec![], ItemMetadata::default().delete(true))),
    ];
    let same = || FileLookup::Found(path(vec![name("x")]));
    let files = m.get_changed_files(&changes, &vec![same(), same()]).ok().unwrap();
    assert_eq!(files.entries().len(), 1);
    assert!(files.entries()[0].1 == ItemMetadata::default().delete(true));
}

#[test]
fn a_lost_file_with_a_root_keeps_its_path() {
    let reading = path(vec![PathComponent::RootDir, name("b")]);
    let rooted = FileLookup::Lost { code: 5, reading };
    assert_eq!(String::from_utf16_lossy(&rooted.to_path().to_units()), "\\b");
    let nameless = FileLookup::Lost { code: 5, reading: path(vec![]) };
    assert_eq!(String::from_utf16_lossy(&nameless.to_path().to_units()), "0x5");
}

#[test]
fn a_listed_path_keeps_its_spelling() {
    let mut m = monitor(options());
    m.start(&query(0, 5));
    m.stop(&query(0, 9)).unwrap();
    let change = |id| (FileId::Short(id), (vec![], ItemMetadata::default().create(true)));
    let on = |text: &str| {
        let volume = prefix(PrefixKind::Disk(b'D'), text);
        FileLookup::Found(path(vec![volume, PathComponent::RootDir, name("x")]))
    };
    let files = m.get_changed_files(&vec![change(1), change(2)], &vec![on("d:"), on("D:")]);
    let files = files.ok().unwrap();
    assert_eq!(files.entries().len(), 1);
    assert_eq!(String::from_utf16_lossy(&files.entries()[0].0.to_units()), "d:\\x");
}

#[test]
fn the_name_of_a_file_is_read() {
    let mut buffer = vec![0u8; 1024];
    buffer[0] = 4;
    buffer[4] = b'\\';
    buffer[6] = b'a';
    assert_eq!(parse_name_info(&buffer), Ok(encode_utf16("\\a")));
    buffer[0] = 3;
    assert!(parse_name_info(&buffer).unwrap_err() == NameInfoError::OddNameLength);
    buffer[0..4].copy_from_slice(&1021u32.to_le_bytes());
    assert!(parse_name_info(&buffer).unwrap_err() == NameInfoError::BufferTooSmall);
    buffer[0..4].copy_from_slice(&u32::MAX.to_le_bytes());
    assert!(parse_name_info(&buffer).unwrap_err() == NameInfoError::BufferTooSmall);
    buffer[0..4].copy_from_slice(&1020u32.to_le_bytes());
    assert_eq!(parse_name_info(&buffer).unwrap().len(), 510);
}

#[test]
fn a_journal_monitor_runs_from_start_to_stop() {
    let mut m = monitor(options());
    assert!(m.stop(&query(0, 1)).unwrap_err() == UsnMonitorError::NotStarted);
    assert!(m.range().unwrap_err() == UsnMonitorError::NotStarted);
    m.start(&query(0, 5));
    assert!(m.range().unwrap_err() == UsnMonitorError::NotStopped);
    assert!(m.check_running().is_ok());
    m.stop(&query(0, 9)).unwrap();
    assert_eq!(m.range().unwrap(), (5, 9));
    assert!(m.stop(&query(0, 10)).unwrap_err() == UsnMonitorError::AlreadyStopped);
    assert!(m.check_running().unwrap_err() == UsnMonitorError::AlreadyStopped);
    assert_eq!(m.range().unwrap(), (5, 9));
    m.start(&query(0, 20));
    assert!(m.get_changed_files(&vec![], &vec![]).err() == Some(UsnMonitorError::NotStopped));
}
