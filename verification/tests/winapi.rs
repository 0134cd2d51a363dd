use dynstaller::changes::ItemMap;
use dynstaller::given::GivenPath;
use dynstaller::item::ItemMetadata;
use dynstaller::monitor::procmon::MonitorResult;
use dynstaller::monitor::winapi::{
    MonitorState, NotificationError, Watch, WatchError, WatchEvent, WatchStep, WinApi,
    WinApiMonitor, WinApiMonitorError, OPERATION_ABORTED,
};
use dynstaller::monitor::{new_boxed, AnyMonitor, MonitorError};
use dynstaller::monitor::usn::VolumeError;
use dynstaller::options::{MonitorMethod, MonitorOptions, TrackOptions};
use dynstaller::path::{PathComponent, PathPrefix, WinPath};
use dynstaller::text::{encode_utf16, ContainsNul};

fn folder() -> WinPath {
    WinPath {
        components: vec![
            PathComponent::Prefix(PathPrefix::disk(b'C')),
            PathComponent::RootDir,
            PathComponent::Normal(encode_utf16("watched")),
        ],
    }
}

fn options() -> MonitorOptions {
    MonitorOptions {
        method: MonitorMethod::WinApi,
        path: GivenPath::of(folder()),
        creation: true,
        deletion: true,
        modification: true,
        renaming: true,
        add_registry: false,
        procmon_path: None,
    }
}

fn track() -> TrackOptions {
    TrackOptions { pid: Some(3), no_children: true }
}

fn notification(next: u32, action: u32, name: &str) -> Vec<u8> {
    let units: Vec<u8> = name.encode_utf16().flat_map(|u| u.to_le_bytes()).collect();
    let mut data = vec![0u8; (84 + units.len()).max(88)];
    data[0..4].copy_from_slice(&next.to_le_bytes());
    data[4..8].copy_from_slice(&action.to_le_bytes());
    data[8..16].copy_from_slice(&(-5i64).to_le_bytes());
    data[64..72].copy_from_slice(&9i64.to_le_bytes());
    data[80..84].copy_from_slice(&(units.len() as u32).to_le_bytes());
    data[84..84 + units.len()].copy_from_slice(&units);
    data
}

fn two() -> Vec<u8> {
    let mut data = notification(96, 1, "a.txt");
    data.resize(96, 0);
    data.extend_from_slice(&notification(0, 3, "b"));
    data
}

fn format_error(data: &[u8]) -> NotificationError {
    match WinApi::parse_records(data) {
        Ok(_) => panic!("the notifications were accepted"),
        Err(e) => e,
    }
}

#[test]
fn notifications_are_taken_apart() {
    let found = match WinApi::parse_records(&two()) {
        Ok(found) => found,
        Err(e) => panic!("{:?}", e),
    };
    assert_eq!(found.len(), 2);
    assert_eq!(String::from_utf16_lossy(&found[0].filename), "a.txt");
    assert_eq!(found[0].info.action, 1);
    assert_eq!(found[0].info.creation_time, -5);
    assert_eq!(found[0].info.file_id, 9);
    assert_eq!(String::from_utf16_lossy(&found[1].filename), "b");
    assert_eq!(found[1].info.next_entry_offset, 0);
    assert!(WinApi::parse_records(&[]).ok().unwrap().is_empty());
    let nameless = WinApi::parse_records(&notification(0, 1, "")).ok().unwrap();
    assert!(nameless[0].filename.is_empty());
}

#[test]
fn what_is_no_notification_is_refused() {
    assert!(format_error(&[0; 87]) == NotificationError::InsufficientData);
    let data = notification(89, 1, "a");
    assert!(format_error(&data) == NotificationError::NextEntryExceedsData);
    let mut long = notification(0, 1, "a");
    long[80..84].copy_from_slice(&6u32.to_le_bytes());
    assert!(format_error(&long) == NotificationError::NameExceedsEntry);
    long[80..84].copy_from_slice(&u32::MAX.to_le_bytes());
    assert!(format_error(&long) == NotificationError::NameExceedsEntry);
    let mut odd = notification(0, 1, "a");
    odd[80..84].copy_from_slice(&3u32.to_le_bytes());
    assert!(format_error(&odd) == NotificationError::OddNameLength);
}

#[test]
fn only_what_was_sent_is_read() {
    let mut buffer = notification(0, 1, "a");
    let size = buffer.len() as u32;
    buffer.resize(1000, 1);
    assert_eq!(WinApi::read_changes(&buffer, size).ok().unwrap().len(), 1);
    assert!(WinApi::read_changes(&buffer, 0).ok().unwrap().is_empty());
    assert!(WinApi::read_changes(&buffer, 1001).err() == Some(WatchError::TooManyBytes));
    assert!(
        WinApi::read_changes(&buffer, 1).err()
            == Some(WatchError::Format(NotificationError::InsufficientData))
    );
}

#[test]
fn actions_tell_of_changes() {
    let o = options();
    assert!(WinApiMonitor::get_meta(&o, 1) == ItemMetadata::default().create(true));
    assert!(WinApiMonitor::get_meta(&o, 2) == ItemMetadata::default().delete(true));
    assert!(WinApiMonitor::get_meta(&o, 3) == ItemMetadata::default().modify(true));
    assert!(WinApiMonitor::get_meta(&o, 4).is_empty());
    assert!(WinApiMonitor::get_meta(&o, 5) == ItemMetadata::default().rename(true));
    let none = MonitorOptions { creation: false, ..options() };
    assert!(WinApiMonitor::get_meta(&none, 1).is_empty());
}

fn mask(creation: bool, deletion: bool, modification: bool, renaming: bool) -> u32 {
    let o = MonitorOptions { creation, deletion, modification, renaming, ..options() };
    WinApiMonitor::new(o, track()).ok().unwrap().notify_change_mask()
}

#[test]
fn only_what_is_tracked_is_asked_for() {
    assert_eq!(mask(false, false, false, false), 0);
    assert_eq!(mask(true, false, false, false), 0x43);
    assert_eq!(mask(false, true, false, false), 0x3);
    assert_eq!(mask(false, false, true, false), 0x18);
    assert_eq!(mask(false, false, false, true), 0x3);
    assert_eq!(mask(true, true, true, true), 0x5b);
}

#[test]
fn a_watch_gathers_what_it_is_sent() {
    let mut watch = Watch::new(options());
    let data = two();
    let first = WatchEvent::Filled { buffer: &data, bytes_returned: data.len() as u32 };
    assert!(watch.step(first) == WatchStep::Wait);
    let more = notification(0, 2, "a.txt");
    let second = WatchEvent::Filled { buffer: &more, bytes_returned: more.len() as u32 };
    assert!(watch.step(second) == WatchStep::Wait);
    let old = notification(0, 4, "old");
    let third = WatchEvent::Filled { buffer: &old, bytes_returned: old.len() as u32 };
    assert!(watch.step(third) == WatchStep::Wait);
    assert_eq!(watch.changes.entries().len(), 2);
    let a = watch.changes.get(&encode_utf16("a.txt")).unwrap();
    assert!(*a == ItemMetadata::default().create(true).delete(true));
    assert!(watch.step(WatchEvent::Failed { code: OPERATION_ABORTED }) == WatchStep::Finish);
    assert_eq!(OPERATION_ABORTED as u32, 0x800703e3);
}

#[test]
fn a_watch_lists_paths_below_its_folder() {
    let mut watch = Watch::new(options());
    for (action, name) in [(1, "d\\a"), (3, "d/a"), (2, "b")] {
        let data = notification(0, action, name);
        let event = WatchEvent::Filled { buffer: &data, bytes_returned: data.len() as u32 };
        assert!(watch.step(event) == WatchStep::Wait);
    }
    assert_eq!(watch.changes.entries().len(), 3);
    let relative = |names: &[&str]| WinPath {
        components: names.iter().map(|n| PathComponent::Normal(encode_utf16(n))).collect(),
    };
    let names = vec![relative(&["d", "a"]), relative(&["d", "a"]), relative(&["b"])];
    let files = watch.by_path(&names);
    let shown: Vec<(String, ItemMetadata)> = files
        .entries()
        .iter()
        .map(|(p, m)| (String::from_utf16_lossy(&p.to_units()), *m))
        .collect();
    assert_eq!(shown.len(), 2);
    assert_eq!(shown[0].0, "C:\\watched\\d\\a");
    assert!(shown[0].1 == ItemMetadata::default().create(true).modify(true));
    assert_eq!(shown[1].0, "C:\\watched\\b");
}

#[test]
fn only_the_recording_monitor_follows_the_registry() {
    let watching = new_boxed(options(), track()).ok().unwrap();
    assert!(watching.get_changed_registry_keys().is_none());
    let root = GivenPath::of(WinPath { components: vec![PathComponent::RootDir] });
    let usn = MonitorOptions { method: MonitorMethod::Usn, path: root, ..options() };
    assert!(new_boxed(usn, track()).ok().unwrap().get_changed_registry_keys().is_none());
    let procmon = MonitorOptions { method: MonitorMethod::Procmon, ..options() };
    let mut recording = match new_boxed(procmon, track()) {
        Ok(AnyMonitor::Procmon(m)) => m,
        _ => panic!("another monitor"),
    };
    recording.finish_stop(MonitorResult { files: ItemMap::new(), registry_keys: ItemMap::new() });
    let keys = AnyMonitor::Procmon(recording);
    assert!(keys.get_changed_registry_keys().unwrap().entries().is_empty());
}

#[test]
fn a_watch_fails_with_the_system() {
    let mut watch = Watch::new(options());
    assert!(
        watch.step(WatchEvent::Failed { code: 5 })
            == WatchStep::Fail(WatchError::System { code: 5 })
    );
    let short = WatchEvent::Filled { buffer: &[1, 2], bytes_returned: 2 };
    assert!(
        watch.step(short)
            == WatchStep::Fail(WatchError::Format(NotificationError::InsufficientData))
    );
    assert!(watch.changes.entries().is_empty());
}

#[test]
fn a_folder_monitor_runs_from_start_to_stop() {
    let mut m = WinApiMonitor::new(options(), track()).ok().unwrap();
    assert_eq!(String::from_utf16_lossy(&m.api.folder), "C:\\watched\0");
    assert!(m.get_changed_files().err() == Some(WinApiMonitorError::NotStopped));
    assert!(!m.begin_stop());
    m.start();
    assert!(m.get_changed_files().err() == Some(WinApiMonitorError::NotStopped));
    assert!(m.begin_stop());
    assert!(matches!(m.state, MonitorState::NotStarted));
    m.finish_stop(Err(WatchError::TooManyBytes));
    assert!(
        m.get_changed_files().err() == Some(WinApiMonitorError::Failed(WatchError::TooManyBytes))
    );
    assert!(!m.begin_stop());
    m.finish_stop(Ok(Watch::new(options()).by_path(&vec![])));
    assert!(m.get_changed_files().ok().unwrap().entries().is_empty());
}

#[test]
fn a_folder_is_opened_as_it_is_spelled() {
    let path = GivenPath { text: encode_utf16("c:/watched/"), path: folder() };
    let m = WinApiMonitor::new(MonitorOptions { path, ..options() }, track()).ok().unwrap();
    assert_eq!(String::from_utf16_lossy(&m.api.folder), "c:/watched/\0");
}

#[test]
fn a_folder_must_not_hold_a_nul() {
    assert!(WinApi::new(vec![0x61, 0, 0x62]).err() == Some(ContainsNul { position: 1 }));
    let api = WinApi::new(vec![0x61]).ok().unwrap();
    assert_eq!(api.folder, vec![0x61, 0]);
}

#[test]
fn the_options_choose_the_monitor() {
    match new_boxed(options(), track()) {
        Ok(AnyMonitor::WinApi(m)) => assert!(matches!(m.state, MonitorState::NotStarted)),
        _ => panic!("another monitor"),
    }
    let procmon = MonitorOptions { method: MonitorMethod::Procmon, ..options() };
    match new_boxed(procmon, track()) {
        Ok(AnyMonitor::Procmon(m)) => assert_eq!(m.track_options.pid, Some(3)),
        _ => panic!("another monitor"),
    }
    let root = GivenPath::of(WinPath { components: vec![PathComponent::RootDir] });
    let usn = MonitorOptions { method: MonitorMethod::Usn, path: root, ..options() };
    match new_boxed(usn, track()) {
        Ok(AnyMonitor::Usn(m)) => assert!(m.initial_usn.is_none() && m.end_usn.is_none()),
        _ => panic!("another monitor"),
    }
}

#[test]
fn a_monitor_needs_a_path_that_suits_it() {
    let usn = MonitorOptions { method: MonitorMethod::Usn, ..options() };
    assert!(
        new_boxed(usn, track()).err() == Some(MonitorError::Volume(VolumeError::InvalidPath))
    );
    let path = GivenPath::entry(vec![0, 0x61]);
    let watched = MonitorOptions { path, ..options() };
    assert!(
        new_boxed(watched, track()).err()
            == Some(MonitorError::Folder(ContainsNul { position: 0 }))
    );
}
