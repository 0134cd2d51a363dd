use std::collections::BTreeMap;

use dynstaller::changes::ChangeMap;
use dynstaller::given::GivenPath;
use dynstaller::item::ItemMetadata;
use dynstaller::monitor::details::{details_from_captures, parse_all_details, parse_details};
use dynstaller::monitor::operations::{
    check_is_renaming_operation, classify_file_operation, classify_registry_operation,
    get_file_operation, AdditionalFilesystemOperation, FilesystemOperation,
};
use dynstaller::monitor::procmon::{
    Event, EventList, LogError, LogFile, ModuleList, MonitorState, Process, ProcessList,
    ProcmonError, ProcmonMonitor,
};
use dynstaller::options::{MonitorMethod, MonitorOptions, TrackOptions};
use dynstaller::path::{PathComponent, WinPath};
use dynstaller::text::encode_utf16;

fn options() -> MonitorOptions {
    MonitorOptions {
        method: MonitorMethod::Procmon,
        path: GivenPath::of(WinPath { components: vec![PathComponent::RootDir] }),
        creation: true,
        deletion: true,
        modification: true,
        renaming: true,
        add_registry: true,
        procmon_path: None,
    }
}

fn everyone() -> TrackOptions {
    TrackOptions { pid: None, no_children: false }
}

fn minor(name: Option<&str>) -> AdditionalFilesystemOperation {
    AdditionalFilesystemOperation {
        id: 0,
        irp: "IRP_MJ_SET_INFORMATION".to_string(),
        fastio: "FASTIO_SET_INFORMATION".to_string(),
        name: name.map(|n| n.to_string()),
    }
}

fn operation(from: &str, to: &str) -> FilesystemOperation {
    FilesystemOperation { to: to.to_string(), from: from.to_string(), additional: vec![] }
}

fn table() -> Vec<FilesystemOperation> {
    let mut set = operation("IRP_MJ_SET_INFORMATION", "SetInformationFile");
    set.additional = vec![
        minor(None),
        minor(Some("SetEndOfFileInformationFile")),
        minor(Some("SetRenameInformationEx")),
    ];
    vec![
        operation("IRP_MJ_CREATE", "CreateFile"),
        operation("IRP_MJ_WRITE", "WriteFile"),
        set,
        operation("IRP_MJ_UNHEARD_OF", "Unheard"),
    ]
}

fn event(index: u32, operation: &str, path: &str, detail: &str) -> Event {
    Event {
        process_index: index,
        time_of_day: String::new(),
        process_name: "setup.exe".to_string(),
        pid: 0,
        operation: operation.to_string(),
        path: path.to_string(),
        result: "SUCCESS".to_string(),
        detail: detail.to_string(),
    }
}

fn process(index: u32, pid: u32, parent: u32) -> Process {
    Process {
        process_index: index,
        process_id: pid,
        parent_process_id: 0,
        parent_process_index: parent,
        authentication_id: String::new(),
        create_time: 0,
        finish_time: 0,
        is_virtualized: 0,
        is_64_bit: true,
        integrity: String::new(),
        owner: String::new(),
        process_name: String::new(),
        image_path: String::new(),
        command_line: String::new(),
        company_name: String::new(),
        version: String::new(),
        description: String::new(),
        modules: ModuleList { modules: vec![] },
    }
}

fn log(processes: Vec<Process>, events: Vec<Event>) -> LogFile {
    LogFile { processes: ProcessList { processes }, events: EventList { events } }
}

fn detail(text: &str, key: &str) -> Option<String> {
    parse_details(text).get(key).map(|v| v.to_string())
}

#[test]
fn details_are_pairs() {
    let text = "Desired Access: Read, Disposition: Open, AllocationSize: 1,024,  Odd Key : x y ";
    assert_eq!(detail(text, "Desired Access").as_deref(), Some("Read"));
    assert_eq!(detail(text, "Disposition").as_deref(), Some("Open"));
    assert_eq!(detail(text, "AllocationSize").as_deref(), Some("1,024"));
    assert_eq!(detail(text, "Odd Key").as_deref(), Some("x y"));
    assert_eq!(detail(text, "Missing"), None);
    assert_eq!(detail("", ""), None);
    assert_eq!(detail("no pair", "no pair"), None);
}

#[test]
fn a_value_ends_at_a_comma() {
    assert_eq!(detail("Type: A, B: C", "Type").as_deref(), Some("A"));
    assert_eq!(detail("Length: 1,02, B: C", "Length").as_deref(), Some("1"));
    assert_eq!(detail("Name: x:20, B: C", "Name").as_deref(), Some("x:20"));
    assert_eq!(detail("Size: 2 MB", "Size").as_deref(), Some("2"));
    assert_eq!(detail("Length: 1,234,567", "Length").as_deref(), Some("1,234,567"));
}

#[test]
fn the_last_value_of_a_key_counts() {
    assert_eq!(detail("A: x, A: y", "A").as_deref(), Some("y"));
}

#[test]
fn many_details_are_parsed_at_once() {
    let all = parse_all_details(&vec!["A: x", "", "A: y"]);
    assert_eq!(all.len(), 3);
    assert_eq!(all[0].get("A"), Some("x"));
    assert_eq!(all[1].get("A"), None);
    assert_eq!(all[2].get("A"), Some("y"));
}

#[test]
fn matches_become_details() {
    let groups = |key: &str, value: &str| {
        vec![Some(String::new()), Some(key.to_string()), Some(value.to_string())]
    };
    let details = details_from_captures(&vec![groups(" a ", "\tb\n"), groups("a", "c")]);
    assert_eq!(details.get("a"), Some("c"));
    assert_eq!(details.get(" a "), None);
}

#[test]
fn operations_are_known_by_several_names() {
    let ops = table();
    let get = |name: &str, kind: Option<&str>| get_file_operation(&ops, name, kind);
    assert_eq!(get("CreateFile", None).as_deref(), Some("CreateFile"));
    assert_eq!(get("IRP_MJ_CREATE", None).as_deref(), Some("CreateFile"));
    assert_eq!(
        get("SetRenameInformationEx", None).as_deref(),
        Some("SetRenameInformationEx")
    );
    assert_eq!(
        get("FASTIO_SET_INFORMATION", Some("SetEndOfFileInformationFile")).as_deref(),
        Some("SetEndOfFileInformationFile")
    );
    assert_eq!(
        get("IRP_MJ_SET_INFORMATION", Some("Other")).as_deref(),
        Some("SetInformationFile")
    );
    assert_eq!(get("FASTIO_SET_INFORMATION", None), None);
    assert_eq!(get("Nothing", None), None);
}

#[test]
fn converted_names_are_kept() {
    let ops = vec![operation("IRP_MJ_CREATE", "CreateFile"), operation("IRP_MJ_CLOSE", "CloseFile")];
    for raw in ["IRP_MJ_CREATE", "IRP_MJ_CLOSE"] {
        let shown = get_file_operation(&ops, raw, None).unwrap().to_string();
        assert!(shown != raw);
        assert_eq!(get_file_operation(&ops, &shown, Some("Any")).as_deref(), Some(shown.as_str()));
    }
}

#[test]
fn a_value_that_starts_with_digits_is_cut() {
    assert_eq!(detail("Size: 1,024, Rest: x", "Size").as_deref(), Some("1,024"));
    assert_eq!(detail("Size: 512 KB, Rest: x", "Size").as_deref(), Some("512"));
    assert_eq!(detail("Size: 1024, Rest: x", "Size").as_deref(), Some("102"));
    assert_eq!(detail("Size: 1024, Rest: x", "Rest").as_deref(), Some("x"));
}

fn file_meta(operation: &str, detail: &str) -> Option<ItemMetadata> {
    classify_file_operation(operation, &parse_details(detail))
}

#[test]
fn file_operations_have_effects() {
    let none = ItemMetadata::default();
    assert!(file_meta("CreateFile", "OpenResult: Created") == Some(none.create(true)));
    assert!(
        file_meta("CreateFile", "OpenResult: Superseded")
            == Some(none.create(true).delete(true))
    );
    assert!(file_meta("CreateFile", "OpenResult: Overwritten") == Some(none.modify(true)));
    assert!(file_meta("CreateFile", "OpenResult: Opened") == Some(none));
    assert!(file_meta("WriteFile", "") == Some(none.modify(true)));
    assert!(file_meta("CreatePipe", "") == Some(none.create(true)));
    assert!(file_meta("CreateMailSlot", "") == Some(none.create(true)));
    assert!(file_meta("SetEAFile", "") == Some(none.modify(true)));
    assert!(file_meta("SetRenameInformationEx", "") == Some(none.rename(true)));
    assert!(file_meta("FASTIO_PREPARE_MDL_WRITE", "") == Some(none.modify(true)));
    assert!(file_meta("SetInformationFile", "") == Some(none));
    assert!(file_meta("QueryAttributeCacheInformation,", "") == Some(none));
    assert!(file_meta("IRP_MJ_MAXIMUM_FUNCTION", "") == Some(none));
    assert!(file_meta("Unheard", "").is_none());
    assert!(check_is_renaming_operation("SetRenameInformationExBypassAccessCheck"));
    assert!(!check_is_renaming_operation("SetRenameInformationFile"));
}

#[test]
fn registry_operations_have_effects() {
    let meta = |operation: &str, detail: &str| {
        classify_registry_operation(operation, &parse_details(detail))
    };
    let none = ItemMetadata::default();
    assert!(meta("RegSetValue", "") == Some(none.create(true).modify(true)));
    assert!(
        meta("RegCreateKey", "Disposition: REG_CREATED_NEW_KEY") == Some(none.create(true))
    );
    assert!(meta("RegCreateKey", "Disposition: REG_OPENED_EXISTING_KEY") == Some(none));
    assert!(meta("RegDeleteKey", "") == Some(none.delete(true)));
    assert!(meta("RegDeleteValue", "") == Some(none.delete(true)));
    assert!(meta("RegRenameKey", "") == Some(none.rename(true)));
    assert!(meta("RegSetKeySecurity", "") == Some(none.modify(true)));
    assert!(meta("RegRestorekey", "") == Some(none));
    assert!(meta("RegRestoreKey", "").is_none());
    assert!(meta("CreateFile", "").is_none());
}

#[test]
fn registry_events_need_the_option() {
    let e = event(0, "RegSetValue", "HKLM\\x", "");
    let (key, meta) = ProcmonMonitor::registry_matches(&options(), &e).unwrap();
    assert_eq!(key, "HKLM\\x");
    assert!(meta == ItemMetadata::default().create(true).modify(true));
    let off = MonitorOptions { add_registry: false, ..options() };
    assert!(ProcmonMonitor::registry_matches(&off, &e).is_none());
    let less = MonitorOptions { creation: false, ..options() };
    let (_, meta) = ProcmonMonitor::registry_matches(&less, &e).unwrap();
    assert!(meta == ItemMetadata::default().modify(true));
}

#[test]
fn file_events_name_a_file() {
    let ops = table();
    let e = event(0, "IRP_MJ_WRITE", "C:\\x", "");
    let (file, meta) = ProcmonMonitor::file_matches(&ops, &options(), &e).unwrap();
    assert_eq!(file, "C:\\x");
    assert!(meta == ItemMetadata::default().modify(true));
    let less = MonitorOptions { modification: false, ..options() };
    assert!(ProcmonMonitor::file_matches(&ops, &less, &e).unwrap().1.is_empty());
    let unknown = event(0, "IRP_MJ_UNHEARD_OF", "C:\\x", "");
    assert!(ProcmonMonitor::file_matches(&ops, &options(), &unknown).is_none());
}

#[test]
fn a_renamed_file_is_listed_under_its_new_name() {
    let ops = table();
    let e = event(0, "SetRenameInformationEx", "C:\\old", "FileName: C:\\new");
    let (file, meta) = ProcmonMonitor::file_matches(&ops, &options(), &e).unwrap();
    assert_eq!(file, "C:\\new");
    assert!(meta == ItemMetadata::default().rename(true));
    let only_renaming = MonitorOptions {
        creation: false,
        deletion: false,
        modification: false,
        ..options()
    };
    let told = event(
        0,
        "SetRenameInformationEx",
        "C:/old.txt",
        "ReplaceIfExists: False, FileName: C:/new.txt",
    );
    let (file, meta) = ProcmonMonitor::file_matches(&ops, &only_renaming, &told).unwrap();
    assert_eq!(file, "C:/new.txt");
    assert!(meta == ItemMetadata::default().rename(true));
    let no_renaming = MonitorOptions { renaming: false, ..options() };
    assert!(ProcmonMonitor::file_matches(&ops, &no_renaming, &told).unwrap().1.is_empty());
    let nameless = event(0, "SetRenameInformationEx", "C:\\old", "");
    let (file, meta) = ProcmonMonitor::file_matches(&ops, &options(), &nameless).unwrap();
    assert_eq!(file, "C:\\old");
    assert!(meta == ItemMetadata::default().rename(true));
}

#[test]
fn events_belong_to_a_process_and_its_parents() {
    let mut processes = BTreeMap::new();
    for p in [process(0, 4, 0), process(1, 100, 0), process(2, 200, 1), process(3, 300, 9)] {
        processes.insert(p.process_index, p);
    }
    let of = |index| event(index, "", "", "");
    assert!(ProcmonMonitor::pid_matches(200, true, &processes, &of(2)));
    assert!(ProcmonMonitor::pid_matches(100, true, &processes, &of(2)));
    assert!(ProcmonMonitor::pid_matches(4, true, &processes, &of(2)));
    assert!(!ProcmonMonitor::pid_matches(100, false, &processes, &of(2)));
    assert!(ProcmonMonitor::pid_matches(200, false, &processes, &of(2)));
    assert!(!ProcmonMonitor::pid_matches(200, true, &processes, &of(1)));
    assert!(!ProcmonMonitor::pid_matches(100, true, &processes, &of(3)));
    assert!(!ProcmonMonitor::pid_matches(100, true, &processes, &of(7)));
}

#[test]
fn processes_that_are_their_own_ancestors_are_searched_once() {
    let mut processes = BTreeMap::new();
    for p in [process(0, 10, 1), process(1, 11, 2), process(2, 12, 0)] {
        processes.insert(p.process_index, p);
    }
    let e = event(0, "", "", "");
    assert!(ProcmonMonitor::pid_matches(12, true, &processes, &e));
    assert!(!ProcmonMonitor::pid_matches(99, true, &processes, &e));
}

fn sample_events() -> Vec<Event> {
    let mut failed = event(1, "WriteFile", "C:\\failed", "");
    failed.result = "ACCESS DENIED".to_string();
    vec![
        event(1, "CreateFile", "C:\\a", "OpenResult: Created"),
        event(2, "WriteFile", "C:\\a", ""),
        event(3, "WriteFile", "C:\\b", ""),
        event(1, "ReadFile", "C:\\c", ""),
        failed,
        event(2, "RegSetValue", "HKLM\\k", ""),
    ]
}

fn sample_processes() -> Vec<Process> {
    vec![process(1, 100, 1), process(2, 200, 1), process(3, 300, 3)]
}

fn sample_table() -> Vec<FilesystemOperation> {
    let mut ops = table();
    ops.push(operation("IRP_MJ_READ", "ReadFile"));
    ops
}

#[test]
fn a_log_lists_what_changed() {
    let document = log(sample_processes(), sample_events());
    let result =
        match ProcmonMonitor::analyze(&sample_table(), &options(), &everyone(), document) {
            Ok(result) => result,
            Err(e) => panic!("{:?}", e),
        };
    assert_eq!(result.files.entries().len(), 2);
    let a = result.files.get(&"C:\\a".to_string()).unwrap();
    assert!(*a == ItemMetadata::default().create(true).modify(true));
    assert!(result.files.get(&"C:\\b".to_string()).is_some());
    assert!(result.files.get(&"C:\\failed".to_string()).is_none());
    assert_eq!(result.registry_keys.entries().len(), 1);
}

fn files_for(track: TrackOptions) -> Vec<String> {
    let document = log(sample_processes(), sample_events());
    let result = ProcmonMonitor::analyze(&sample_table(), &options(), &track, document);
    result.ok().unwrap().files.entries().iter().map(|(p, _)| p.clone()).collect()
}

#[test]
fn tracking_less_finds_less() {
    let all = files_for(everyone());
    let children = files_for(TrackOptions { pid: Some(100), no_children: false });
    let alone = files_for(TrackOptions { pid: Some(200), no_children: true });
    assert_eq!(all, vec!["C:\\a", "C:\\b"]);
    assert_eq!(children, vec!["C:\\a"]);
    assert_eq!(alone, vec!["C:\\a"]);
    assert_eq!(files_for(TrackOptions { pid: Some(300), no_children: true }), vec!["C:\\b"]);
}

#[test]
fn the_process_to_track_must_be_in_the_log() {
    let document = log(sample_processes(), sample_events());
    let track = TrackOptions { pid: Some(7), no_children: false };
    let result = ProcmonMonitor::analyze(&sample_table(), &options(), &track, document);
    assert!(result.err() == Some(LogError::NoSuchProcess { pid: 7 }));
}

/// The path that a name stands for.
fn path_of(name: &str) -> WinPath {
    let parts = name.split(['\\', '/']).filter(|part| !part.is_empty());
    WinPath { components: parts.map(|p| PathComponent::Normal(encode_utf16(p))).collect() }
}

fn paths_of(changes: &ChangeMap<String>) -> Vec<WinPath> {
    changes.entries().iter().map(|(name, _)| path_of(name)).collect()
}

#[test]
fn names_of_one_path_are_joined() {
    let events = vec![
        event(1, "CreateFile", "C:\\d", "OpenResult: Created"),
        event(1, "WriteFile", "C:\\d\\", ""),
        event(1, "RegSetValue", "HKLM\\k", ""),
        event(1, "RegDeleteKey", "HKLM/k", ""),
    ];
    let document = log(sample_processes(), events);
    let result = ProcmonMonitor::analyze(&sample_table(), &options(), &everyone(), document);
    let changes = result.ok().unwrap();
    assert_eq!(changes.files.entries().len(), 2);
    let found = changes.by_path(paths_of(&changes.files), paths_of(&changes.registry_keys));
    assert_eq!(found.files.entries().len(), 1);
    assert!(found.files.entries()[0].1 == ItemMetadata::default().create(true).modify(true));
    assert_eq!(found.registry_keys.entries().len(), 1);
    let (key, meta) = &found.registry_keys.entries()[0];
    assert_eq!(key.name, "HKLM\\k");
    assert!(*meta == ItemMetadata::default().create(true).modify(true).delete(true));
}

#[test]
fn a_recording_monitor_runs_from_start_to_stop() {
    let mut m = ProcmonMonitor::new(options(), everyone());
    assert!(m.get_changed_files().err() == Some(ProcmonError::NotStopped));
    assert!(m.get_changed_registry_keys().is_none());
    assert!(!m.begin_stop());
    m.start();
    assert!(m.begin_stop());
    assert!(matches!(m.state, MonitorState::NotStarted));
    let document = log(sample_processes(), sample_events());
    let result = ProcmonMonitor::analyze(&sample_table(), &options(), &everyone(), document);
    let changes = result.ok().unwrap();
    m.finish_stop(changes.by_path(paths_of(&changes.files), paths_of(&changes.registry_keys)));
    assert_eq!(m.get_changed_files().ok().unwrap().entries().len(), 2);
    assert_eq!(m.get_changed_registry_keys().unwrap().entries().len(), 1);
    assert!(!m.begin_stop());
    m.start();
    assert!(m.get_changed_files().is_err());
}
