//! Tracking with Process Monitor: which of the logged events count, and what
//! they say of files and registry keys.

use std::collections::BTreeMap;

use vstd::prelude::*;

use crate::changes::{
    as_map, distinct_keys, gathered, keyed, recorded, regroup, with_names, ChangeKey, ChangeMap,
};
use crate::item::{merged, untouched, ItemMetadata};
use crate::monitor::details::{details_of, parse_all_details, parse_details, Details};
use crate::monitor::operations::{
    check_is_renaming_operation, classify_file_operation, classify_registry_operation, detail,
    file_effect, file_operation, get_file_operation, is_renaming_operation, registry_effect,
    FilesystemOperation,
};
use crate::options::{wanted, MonitorOptions, TrackOptions};
use crate::path::{path_key, ComponentModel, WinPath};
use crate::text::same_text;

verus! {

/// A log that Process Monitor has exported.
#[derive(Debug)]
pub struct LogFile {
    pub processes: ProcessList,
    pub events: EventList,
}

#[derive(Debug)]
pub struct ProcessList {
    pub processes: Vec<Process>,
}

#[derive(Debug)]
pub struct ModuleList {
    pub modules: Vec<Module>,
}

#[derive(Debug)]
pub struct EventList {
    pub events: Vec<Event>,
}

/// A process that appears in the log.
#[derive(Debug)]
pub struct Process {
    pub process_index: u32,
    pub process_id: u32,
    pub parent_process_id: u32,
    pub parent_process_index: u32,
    pub authentication_id: String,
    pub create_time: u64,
    pub finish_time: u64,
    pub is_virtualized: u32,
    pub is_64_bit: bool,
    pub integrity: String,
    pub owner: String,
    pub process_name: String,
    pub image_path: String,
    pub command_line: String,
    pub company_name: String,
    pub version: String,
    pub description: String,
    pub modules: ModuleList,
}

/// A module that a process has loaded.
#[derive(Debug)]
pub struct Module {
    pub timestamp: u64,
    pub base_address: String,
    pub size: u64,
    pub path: String,
    pub version: String,
    pub company: String,
    pub description: String,
}

/// One line of the log.
#[derive(Debug)]
pub struct Event {
    pub process_index: u32,
    pub time_of_day: String,
    pub process_name: String,
    pub pid: u32,
    pub operation: String,
    pub path: String,
    pub result: String,
    pub detail: String,
}

/// The step from a process to its parent: `None` behind a process that is not
/// in the log and behind a root process, which is its own parent.
pub open spec fn parent_step(processes: Map<u32, Process>, index: Option<u32>) -> Option<u32> {
    match index {
        None => None,
        Some(i) => if !processes.dom().contains(i) || processes[i].parent_process_index
            == processes[i].process_index {
            None
        } else {
            Some(processes[i].parent_process_index)
        },
    }
}

/// The index of the ancestor `n` steps above the process `index`.
pub open spec fn ancestor(processes: Map<u32, Process>, index: u32, n: nat) -> Option<u32>
    decreases n,
{
    if n == 0 {
        Some(index)
    } else {
        parent_step(processes, ancestor(processes, index, (n - 1) as nat))
    }
}

/// The ancestor `n` steps above the process `index` is in the log and has the
/// process ID `pid`.
pub open spec fn ancestor_has_pid(
    processes: Map<u32, Process>,
    index: u32,
    n: nat,
    pid: u32,
) -> bool {
    match ancestor(processes, index, n) {
        Some(i) => processes.dom().contains(i) && processes[i].process_id == pid,
        None => false,
    }
}

/// The process `index` has the process ID `pid` or, with `recurse`, has an
/// ancestor that has it.
pub open spec fn descends_from(
    processes: Map<u32, Process>,
    index: u32,
    pid: u32,
    recurse: bool,
) -> bool {
    exists|n: nat| (recurse || n == 0) && #[trigger] ancestor_has_pid(processes, index, n, pid)
}

proof fn lemma_line_ends(processes: Map<u32, Process>, index: u32, n: nat, m: nat)
    requires
        ancestor(processes, index, n) is None,
        n <= m,
    ensures
        ancestor(processes, index, m) is None,
    decreases m,
{
    if n < m {
        lemma_line_ends(processes, index, n, (m - 1) as nat);
    }
}

proof fn lemma_line_repeats(processes: Map<u32, Process>, index: u32, i: nat, j: nat, m: nat)
    requires
        ancestor(processes, index, i) == ancestor(processes, index, j),
    ensures
        ancestor(processes, index, i + m) == ancestor(processes, index, j + m),
    decreases m,
{
    if m > 0 {
        lemma_line_repeats(processes, index, i, j, (m - 1) as nat);
        assert((i + m - 1) as nat == i + (m - 1) as nat);
        assert((j + m - 1) as nat == j + (m - 1) as nat);
    }
}

/// Two of the first `count` ancestors are the same if there are fewer processes
/// than that.
proof fn lemma_line_has_a_loop(processes: Map<u32, Process>, index: u32, count: nat) -> (r: (
    nat,
    nat,
))
    requires
        processes.dom().finite(),
        count > processes.dom().len(),
        forall|n: nat|
            n < count ==> (#[trigger] ancestor(processes, index, n)) is Some
                && processes.dom().contains(ancestor(processes, index, n)->0),
    ensures
        r.0 < r.1 < count,
        ancestor(processes, index, r.0) == ancestor(processes, index, r.1),
{
    let line = Seq::new(count, |i: int| ancestor(processes, index, i as nat)->0);
    if line.no_duplicates() {
        line.unique_seq_to_set();
        assert(line.to_set().subset_of(processes.dom())) by {
            assert forall|k: u32| line.to_set().contains(k) implies processes.dom().contains(k) by {
                let i = choose|i: int| 0 <= i < line.len() && line[i] == k;
                assert(ancestor(processes, index, i as nat) is Some);
            }
        }
        vstd::set_lib::lemma_len_subset(line.to_set(), processes.dom());
        assert(false);
    }
    let (i, j) = choose|i: int, j: int|
        0 <= i < line.len() && 0 <= j < line.len() && i != j && line[i] == line[j];
    assert(ancestor(processes, index, i as nat) is Some);
    assert(ancestor(processes, index, j as nat) is Some);
    if i < j {
        (i as nat, j as nat)
    } else {
        (j as nat, i as nat)
    }
}

/// What the whole line of ancestors holds, its first `count` members hold
/// already, if there are fewer processes than that.
proof fn lemma_long_line(processes: Map<u32, Process>, index: u32, count: nat, pid: u32)
    requires
        processes.dom().finite(),
        count > processes.dom().len(),
        forall|n: nat|
            n < count ==> (#[trigger] ancestor(processes, index, n)) is Some
                && processes.dom().contains(ancestor(processes, index, n)->0),
        forall|n: nat| n < count ==> !#[trigger] ancestor_has_pid(processes, index, n, pid),
    ensures
        forall|n: nat| !#[trigger] ancestor_has_pid(processes, index, n, pid),
{
    let (i, j) = lemma_line_has_a_loop(processes, index, count);
    assert forall|n: nat| !#[trigger] ancestor_has_pid(processes, index, n, pid) by {
        lemma_member_of_loop(processes, index, i, j, n, pid, count);
    }
}

proof fn lemma_member_of_loop(
    processes: Map<u32, Process>,
    index: u32,
    i: nat,
    j: nat,
    n: nat,
    pid: u32,
    count: nat,
)
    requires
        i < j < count,
        ancestor(processes, index, i) == ancestor(processes, index, j),
        forall|k: nat| k < count ==> !#[trigger] ancestor_has_pid(processes, index, k, pid),
    ensures
        !ancestor_has_pid(processes, index, n, pid),
    decreases n,
{
    if n >= j {
        let m = (n - j) as nat;
        lemma_line_repeats(processes, index, i, j, m);
        assert(j + m == n);
        lemma_member_of_loop(processes, index, i, j, i + m, pid, count);
        assert(ancestor(processes, index, n) == ancestor(processes, index, i + m));
    }
}

/// What a registry event says of its key; `None` if registry keys are not asked
/// for or the event is none of the registry's.
pub open spec fn registry_change(
    options: MonitorOptions,
    event: Event,
    details: Map<Seq<char>, Seq<char>>,
) -> Option<(Seq<char>, ItemMetadata)> {
    if !options.add_registry {
        None
    } else {
        match registry_effect(event.operation@, details) {
            None => None,
            Some(meta) => Some((event.path@, wanted(options, meta))),
        }
    }
}

/// What a file system event says of its file; `None` if the event is none of
/// the file system's. A rename that tells the new name is reported of the file of
/// that name.
pub open spec fn file_change(
    ops: Seq<FilesystemOperation>,
    options: MonitorOptions,
    event: Event,
    details: Map<Seq<char>, Seq<char>>,
) -> Option<(Seq<char>, ItemMetadata)> {
    match file_operation(ops, event.operation@, detail(details, "Type"@)) {
        None => None,
        Some(operation) => {
            let new_name = detail(details, "FileName"@);
            if is_renaming_operation(operation) && new_name is Some && new_name->0.len() > 0 {
                Some((new_name->0, ItemMetadata { renamed: options.renaming, ..untouched() }))
            } else {
                match file_effect(operation, details) {
                    None => None,
                    Some(meta) => Some((event.path@, wanted(options, meta))),
                }
            }
        },
    }
}

/// The event succeeded and was caused by a process that is tracked.
pub open spec fn counts(
    track_options: TrackOptions,
    processes: Map<u32, Process>,
    event: Event,
) -> bool {
    &&& event.result@ == "SUCCESS"@
    &&& track_options.pid is Some ==> descends_from(
        processes,
        event.process_index,
        track_options.pid->0,
        !track_options.no_children,
    )
}

/// What an event with the details `details` adds to the changed registry keys.
pub open spec fn registry_sighting(
    options: MonitorOptions,
    track_options: TrackOptions,
    processes: Map<u32, Process>,
    event: Event,
    details: Map<Seq<char>, Seq<char>>,
) -> Option<(Seq<char>, ItemMetadata)> {
    let change = registry_change(options, event, details);
    if counts(track_options, processes, event) && change is Some && (change->0).1 != untouched() {
        change
    } else {
        None
    }
}

/// What an event with the details `details` adds to the changed files.
pub open spec fn file_sighting(
    ops: Seq<FilesystemOperation>,
    options: MonitorOptions,
    track_options: TrackOptions,
    processes: Map<u32, Process>,
    event: Event,
    details: Map<Seq<char>, Seq<char>>,
) -> Option<(Seq<char>, ItemMetadata)> {
    let change = file_change(ops, options, event, details);
    if counts(track_options, processes, event) && registry_change(options, event, details) is None
        && change is Some && (change->0).1 != untouched() {
        change
    } else {
        None
    }
}

/// The events of a log, each with what its detail column says.
pub open spec fn with_details(
    events: Seq<Event>,
    details: Seq<Map<Seq<char>, Seq<char>>>,
) -> Seq<(Event, Map<Seq<char>, Seq<char>>)> {
    Seq::new(events.len(), |i: int| (events[i], details[i]))
}

/// What the detail column of each of `events` says.
pub open spec fn all_details(events: Seq<Event>) -> Seq<Map<Seq<char>, Seq<char>>> {
    Seq::new(events.len(), |i: int| details_of(events[i].detail@))
}

/// The details behind their views.
pub open spec fn detail_views(details: Seq<Details>) -> Seq<Map<Seq<char>, Seq<char>>> {
    details.map_values(|d: Details| d@)
}

/// What `sighting` finds in each entry of a log, in their order.
pub open spec fn sightings(
    entries: Seq<(Event, Map<Seq<char>, Seq<char>>)>,
    sighting: spec_fn(Event, Map<Seq<char>, Seq<char>>) -> Option<(Seq<char>, ItemMetadata)>,
) -> Seq<(Seq<char>, ItemMetadata)>
    decreases entries.len(),
{
    if entries.len() == 0 {
        Seq::empty()
    } else {
        let front = sightings(entries.drop_last(), sighting);
        match sighting(entries.last().0, entries.last().1) {
            Some(seen) => front.push(seen),
            None => front,
        }
    }
}

/// The processes of the log by their index, the last one of an index being the
/// one that counts.
pub open spec fn process_map(processes: Seq<Process>) -> Map<u32, Process>
    decreases processes.len(),
{
    if processes.len() == 0 {
        Map::empty()
    } else {
        process_map(processes.drop_last()).insert(
            processes.last().process_index,
            processes.last(),
        )
    }
}

/// Some process of the log has the process ID `pid`.
pub open spec fn has_process(processes: Seq<Process>, pid: u32) -> bool {
    exists|i: int| 0 <= i < processes.len() && (#[trigger] processes[i]).process_id == pid
}

/// What is seen of registry keys.
pub open spec fn registry_watch(
    options: MonitorOptions,
    track_options: TrackOptions,
    processes: Map<u32, Process>,
) -> spec_fn(Event, Map<Seq<char>, Seq<char>>) -> Option<(Seq<char>, ItemMetadata)> {
    |event: Event, details: Map<Seq<char>, Seq<char>>|
        registry_sighting(options, track_options, processes, event, details)
}

/// What is seen of files.
pub open spec fn file_watch(
    ops: Seq<FilesystemOperation>,
    options: MonitorOptions,
    track_options: TrackOptions,
    processes: Map<u32, Process>,
) -> spec_fn(Event, Map<Seq<char>, Seq<char>>) -> Option<(Seq<char>, ItemMetadata)> {
    |event: Event, details: Map<Seq<char>, Seq<char>>|
        file_sighting(ops, options, track_options, processes, event, details)
}

/// The changed registry keys of a log.
pub open spec fn log_registry_keys(
    options: MonitorOptions,
    track_options: TrackOptions,
    processes: Map<u32, Process>,
    entries: Seq<(Event, Map<Seq<char>, Seq<char>>)>,
) -> Map<Seq<char>, ItemMetadata> {
    gathered(sightings(entries, registry_watch(options, track_options, processes)))
}

/// The changed files of a log.
pub open spec fn log_files(
    ops: Seq<FilesystemOperation>,
    options: MonitorOptions,
    track_options: TrackOptions,
    processes: Map<u32, Process>,
    entries: Seq<(Event, Map<Seq<char>, Seq<char>>)>,
) -> Map<Seq<char>, ItemMetadata> {
    gathered(sightings(entries, file_watch(ops, options, track_options, processes)))
}

/// Why a log cannot be used.
#[derive(Debug, Clone, Copy, PartialEq, Eq, Structural)]
pub enum LogError {
    /// The process to track does not appear in the log.
    NoSuchProcess { pid: u32 },
}

/// What a log says of files and registry keys, by the names that it gives them.
pub struct LogChanges {
    pub files: ChangeMap<String>,
    pub registry_keys: ChangeMap<String>,
}

/// A registry key: its name, and the path that the name stands for. Two names
/// that stand for the same path are the same key.
#[derive(Debug)]
pub struct RegistryKey {
    pub name: String,
    pub path: WinPath,
}

impl ChangeKey for RegistryKey {
    type Key = Seq<ComponentModel>;

    open spec fn key(&self) -> Seq<ComponentModel> {
        path_key(self.path@)
    }

    fn same_key(&self, other: &Self) -> (r: bool) {
        self.path.same_key(&other.path)
    }
}

/// `keys` have the names of `entries` and the paths `paths`.
pub open spec fn are_keys(
    keys: Seq<RegistryKey>,
    entries: Seq<(String, ItemMetadata)>,
    paths: Seq<WinPath>,
) -> bool {
    &&& keys.len() == paths.len()
    &&& forall|i: int|
        0 <= i < keys.len() ==> (#[trigger] keys[i]).name@ == entries[i].0@ && keys[i].path
            == paths[i]
}

/// What was found of files and registry keys, by their paths.
pub struct MonitorResult {
    pub files: ChangeMap<WinPath>,
    pub registry_keys: ChangeMap<RegistryKey>,
}

impl LogChanges {
    /// The changes by path. For each of the names, in the order in which they
    /// are listed, `file_paths` and `key_paths` hold the path that it stands
    /// for. What the log says of one path under several names is joined.
    pub fn by_path(&self, file_paths: Vec<WinPath>, key_paths: Vec<WinPath>) -> (r: MonitorResult)
        requires
            file_paths@.len() == self.files.listed().len(),
            key_paths@.len() == self.registry_keys.listed().len(),
        ensures
            r.files@ == gathered(keyed(with_names(self.files.listed(), file_paths@))),
            r.files.listed() == recorded(with_names(self.files.listed(), file_paths@)),
            exists|keys: Seq<RegistryKey>| #[trigger]
                are_keys(keys, self.registry_keys.listed(), key_paths@) && r.registry_keys@
                    == gathered(keyed(with_names(self.registry_keys.listed(), keys)))
                    && r.registry_keys.listed() == recorded(
                    with_names(self.registry_keys.listed(), keys),
                ),
    {
        let entries: &Vec<(String, ItemMetadata)> = self.registry_keys.entries();
        let mut keys: Vec<RegistryKey> = Vec::new();
        let mut at: usize = 0;
        for path in it: key_paths
            invariant
                it.seq() == key_paths@,
                entries@ == self.registry_keys.listed(),
                key_paths@.len() == entries@.len(),
                at == it.index(),
                keys@.len() == at,
                forall|i: int|
                    0 <= i < at ==> (#[trigger] keys@[i]).name@ == entries@[i].0@ && keys@[i].path
                        == key_paths@[i],
        {
            assert(at < entries.len());
            keys.push(RegistryKey { name: entries[at].0.clone(), path });
            at = at + 1;
        }
        assert(are_keys(keys@, self.registry_keys.listed(), key_paths@));
        MonitorResult {
            files: regroup(&self.files, file_paths),
            registry_keys: regroup(&self.registry_keys, keys),
        }
    }
}

/// How far the tracking has come.
pub enum MonitorState {
    NotStarted,
    Running,
    Stopped(MonitorResult),
}

/// Why the changes are not available.
#[derive(Debug, Clone, Copy, PartialEq, Eq, Structural)]
pub enum ProcmonError {
    /// The monitor has not been stopped, or it recorded no changes.
    NotStopped,
}

/// Tracks with Process Monitor.
pub struct ProcmonMonitor {
    pub options: MonitorOptions,
    pub track_options: TrackOptions,
    pub state: MonitorState,
}

/// The processes of the log by their index.
fn index_processes(processes: Vec<Process>) -> (r: BTreeMap<u32, Process>)
    ensures
        r@ == process_map(processes@),
{
    let ghost all = processes@;
    let mut map: BTreeMap<u32, Process> = BTreeMap::new();
    for process in it: processes
        invariant
            it.seq() == all,
            map@ == process_map(all.take(it.index())),
    {
        proof {
            assert(all.take(it.index() + 1).drop_last() =~= all.take(it.index()));
        }
        map.insert(process.process_index, process);
    }
    assert(all.take(all.len() as int) =~= all);
    map
}

/// Tells whether some process has the process ID `pid`.
fn find_process(processes: &Vec<Process>, pid: u32) -> (r: bool)
    ensures
        r == has_process(processes@, pid),
{
    for i in 0..processes.len()
        invariant
            forall|k: int| 0 <= k < i ==> (#[trigger] processes@[k]).process_id != pid,
    {
        if processes[i].process_id == pid {
            return true;
        }
    }
    false
}

impl ProcmonMonitor {
    /// Tells whether the event was caused by the process `filter_pid` or, with
    /// `recurse`, by one of its descendants.
    pub fn pid_matches(
        filter_pid: u32,
        recurse: bool,
        processes: &BTreeMap<u32, Process>,
        event: &Event,
    ) -> (r: bool)
        ensures
            r == descends_from(processes@, event.process_index, filter_pid, recurse),
    {
        let ghost index = event.process_index;
        let ghost map = processes@;
        let mut current: u32 = event.process_index;
        let mut left: usize = processes.len();
        let ghost mut n: nat = 0;
        loop
            invariant
                map == processes@,
                map.dom().finite(),
                index == event.process_index,
                n + left == map.dom().len(),
                recurse || n == 0,
                ancestor(map, index, n) == Some(current),
                forall|k: nat|
                    k < n ==> (#[trigger] ancestor(map, index, k)) is Some && map.dom().contains(
                        ancestor(map, index, k)->0,
                    ),
                forall|k: nat| k < n ==> !#[trigger] ancestor_has_pid(map, index, k, filter_pid),
            decreases left,
        {
            match processes.get(&current) {
                None => {
                    proof {
                        assert forall|k: nat| !#[trigger] ancestor_has_pid(
                            map,
                            index,
                            k,
                            filter_pid,
                        ) by {
                            if k > n {
                                assert(ancestor(map, index, n + 1) is None);
                                lemma_line_ends(map, index, n + 1, k);
                            }
                        }
                    }
                    return false;
                },
                Some(p) => {
                    if p.process_id == filter_pid {
                        assert(ancestor_has_pid(map, index, n, filter_pid));
                        return true;
                    }
                    if !recurse {
                        return false;
                    }
                    if p.parent_process_index == p.process_index {
                        proof {
                            assert forall|k: nat| !#[trigger] ancestor_has_pid(
                                map,
                                index,
                                k,
                                filter_pid,
                            ) by {
                                if k > n {
                                    assert(ancestor(map, index, n + 1) is None);
                                    lemma_line_ends(map, index, n + 1, k);
                                }
                            }
                        }
                        return false;
                    }
                    if left == 0 {
                        proof {
                            lemma_long_line(map, index, n + 1, filter_pid);
                        }
                        return false;
                    }
                    left = left - 1;
                    current = p.parent_process_index;
                    proof {
                        n = n + 1;
                    }
                },
            }
        }
    }

    /// What a registry event with the details `details` says of its key.
    pub fn registry_matches_with(options: &MonitorOptions, event: &Event, details: &Details) -> (r:
        Option<(String, ItemMetadata)>)
        ensures
            match r {
                Some((path, meta)) => registry_change(*options, *event, details@) == Some(
                    (path@, meta),
                ),
                None => registry_change(*options, *event, details@) is None,
            },
    {
        if !options.add_registry {
            return None;
        }
        match classify_registry_operation(event.operation.as_str(), details) {
            None => None,
            Some(meta) => Some((event.path.clone(), options.keep_wanted(&meta))),
        }
    }

    /// What a registry event says of its key.
    pub fn registry_matches(options: &MonitorOptions, event: &Event) -> (r: Option<
        (String, ItemMetadata),
    >)
        ensures
            match r {
                Some((path, meta)) => registry_change(
                    *options,
                    *event,
                    details_of(event.detail@),
                ) == Some((path@, meta)),
                None => registry_change(*options, *event, details_of(event.detail@)) is None,
            },
    {
        let details: Details = parse_details(event.detail.as_str());
        Self::registry_matches_with(options, event, &details)
    }

    /// What a file system event with the details `details` says of its file.
    pub fn file_matches_with(
        ops: &Vec<FilesystemOperation>,
        options: &MonitorOptions,
        event: &Event,
        details: &Details,
    ) -> (r: Option<(String, ItemMetadata)>)
        ensures
            match r {
                Some((path, meta)) => file_change(ops@, *options, *event, details@) == Some(
                    (path@, meta),
                ),
                None => file_change(ops@, *options, *event, details@) is None,
            },
    {
        let operation: String = match get_file_operation(
            ops,
            event.operation.as_str(),
            details.get("Type"),
        ) {
            Some(operation) => operation,
            None => {
                return None;
            },
        };
        if check_is_renaming_operation(operation.as_str()) {
            if let Some(path) = details.get("FileName") {
                if !path.is_empty() {
                    return Some(
                        (path.to_owned(), ItemMetadata::default().rename(options.renaming)),
                    );
                }
            }
        }
        match classify_file_operation(operation.as_str(), details) {
            None => None,
            Some(meta) => Some((event.path.clone(), options.keep_wanted(&meta))),
        }
    }

    /// What a file system event says of its file.
    pub fn file_matches(ops: &Vec<FilesystemOperation>, options: &MonitorOptions, event: &Event) -> (r:
        Option<(String, ItemMetadata)>)
        ensures
            match r {
                Some((path, meta)) => file_change(
                    ops@,
                    *options,
                    *event,
                    details_of(event.detail@),
                ) == Some((path@, meta)),
                None => file_change(ops@, *options, *event, details_of(event.detail@)) is None,
            },
    {
        let details: Details = parse_details(event.detail.as_str());
        Self::file_matches_with(ops, options, event, &details)
    }

    /// Tells whether the event succeeded and was caused by a process that is
    /// tracked.
    fn event_counts(
        track_options: &TrackOptions,
        processes: &BTreeMap<u32, Process>,
        event: &Event,
    ) -> (r: bool)
        ensures
            r == counts(*track_options, processes@, *event),
    {
        if !same_text(event.result.as_str(), "SUCCESS") {
            return false;
        }
        match track_options.pid {
            Some(pid) => Self::pid_matches(pid, !track_options.no_children, processes, event),
            None => true,
        }
    }

    /// Gathers the changes that the log `document` reports, given what the
    /// detail column of each event says.
    pub fn analyze_with(
        ops: &Vec<FilesystemOperation>,
        options: &MonitorOptions,
        track_options: &TrackOptions,
        document: LogFile,
        details: &Vec<Details>,
    ) -> (r: Result<LogChanges, LogError>)
        requires
            details@.len() == document.events.events@.len(),
        ensures
            match r {
                Ok(result) => {
                    let processes = process_map(document.processes.processes@);
                    let entries = with_details(document.events.events@, detail_views(details@));
                    &&& track_options.pid is Some ==> has_process(
                        document.processes.processes@,
                        track_options.pid->0,
                    )
                    &&& result.files@ == log_files(
                        ops@,
                        *options,
                        *track_options,
                        processes,
                        entries,
                    )
                    &&& result.registry_keys@ == log_registry_keys(
                        *options,
                        *track_options,
                        processes,
                        entries,
                    )
                },
                Err(LogError::NoSuchProcess { pid }) => track_options.pid == Some(pid)
                    && !has_process(document.processes.processes@, pid),
            },
    {
        let events: Vec<Event> = document.events.events;
        if let Some(pid) = track_options.pid {
            if !find_process(&document.processes.processes, pid) {
                return Err(LogError::NoSuchProcess { pid });
            }
        }
        let processes: BTreeMap<u32, Process> = index_processes(document.processes.processes);
        let ghost map = processes@;
        let ghost entries = with_details(events@, detail_views(details@));
        let ghost registry = registry_watch(*options, *track_options, map);
        let ghost file = file_watch(ops@, *options, *track_options, map);
        let mut registry_keys: ChangeMap<String> = ChangeMap::new();
        let mut files: ChangeMap<String> = ChangeMap::new();
        for i in 0..events.len()
            invariant
                map == processes@,
                details@.len() == events@.len(),
                entries == with_details(events@, detail_views(details@)),
                registry == registry_watch(*options, *track_options, map),
                file == file_watch(ops@, *options, *track_options, map),
                registry_keys@ == gathered(sightings(entries.take(i as int), registry)),
                files@ == gathered(sightings(entries.take(i as int), file)),
        {
            let event: &Event = &events[i];
            let event_details: &Details = &details[i];
            proof {
                assert(entries.take(i + 1).drop_last() =~= entries.take(i as int));
                assert(entries.take(i + 1).last() == (*event, event_details@));
            }
            let ghost registry_before = sightings(entries.take(i as int), registry);
            let ghost files_before = sightings(entries.take(i as int), file);
            if Self::event_counts(track_options, &processes, event) {
                if let Some((key, metadata)) = Self::registry_matches_with(
                    options,
                    event,
                    event_details,
                ) {
                    if !metadata.is_empty() {
                        proof {
                            assert(registry_before.push((key@, metadata)).drop_last()
                                =~= registry_before);
                        }
                        registry_keys.record(key, &metadata);
                    }
                } else if let Some((path, metadata)) = Self::file_matches_with(
                    ops,
                    options,
                    event,
                    event_details,
                ) {
                    if !metadata.is_empty() {
                        proof {
                            assert(files_before.push((path@, metadata)).drop_last()
                                =~= files_before);
                        }
                        files.record(path, &metadata);
                    }
                }
            }
        }
        assert(entries.take(events@.len() as int) =~= entries);
        Ok(LogChanges { files, registry_keys })
    }

    /// Gathers the changes that the log `document` reports.
    pub fn analyze(
        ops: &Vec<FilesystemOperation>,
        options: &MonitorOptions,
        track_options: &TrackOptions,
        document: LogFile,
    ) -> (r: Result<LogChanges, LogError>)
        ensures
            match r {
                Ok(result) => {
                    let processes = process_map(document.processes.processes@);
                    let events = document.events.events@;
                    let entries = with_details(events, all_details(events));
                    &&& track_options.pid is Some ==> has_process(
                        document.processes.processes@,
                        track_options.pid->0,
                    )
                    &&& result.files@ == log_files(
                        ops@,
                        *options,
                        *track_options,
                        processes,
                        entries,
                    )
                    &&& result.registry_keys@ == log_registry_keys(
                        *options,
                        *track_options,
                        processes,
                        entries,
                    )
                },
                Err(LogError::NoSuchProcess { pid }) => track_options.pid == Some(pid)
                    && !has_process(document.processes.processes@, pid),
            },
    {
        let mut columns: Vec<&str> = Vec::new();
        for i in 0..document.events.events.len()
            invariant
                columns@.len() == i,
                forall|k: int|
                    0 <= k < i ==> (#[trigger] columns@[k])@ == document.events.events@[k].detail@,
        {
            columns.push(document.events.events[i].detail.as_str());
        }
        let details: Vec<Details> = parse_all_details(&columns);
        assert(detail_views(details@) =~= all_details(document.events.events@));
        Self::analyze_with(ops, options, track_options, document, &details)
    }

    /// A monitor that has not been started.
    pub fn new(options: MonitorOptions, track_options: TrackOptions) -> (r: Self)
        ensures
            r.options == options,
            r.track_options == track_options,
            r.state is NotStarted,
    {
        ProcmonMonitor { options, track_options, state: MonitorState::NotStarted }
    }

    /// Notes that the recording runs. What an earlier run found is forgotten.
    pub fn start(&mut self)
        ensures
            final(self).state is Running,
            final(self).options == old(self).options,
            final(self).track_options == old(self).track_options,
    {
        self.state = MonitorState::Running;
    }

    /// Tells whether there is a recording to stop. If there is, it no longer
    /// counts as running, and as started only once it has a result.
    pub fn begin_stop(&mut self) -> (r: bool)
        ensures
            r == (old(self).state is Running),
            final(self).state == (if r {
                MonitorState::NotStarted
            } else {
                old(self).state
            }),
            final(self).options == old(self).options,
            final(self).track_options == old(self).track_options,
    {
        match self.state {
            MonitorState::Running => {
                self.state = MonitorState::NotStarted;
                true
            },
            _ => false,
        }
    }

    /// Keeps what the recording has found.
    pub fn finish_stop(&mut self, result: MonitorResult)
        ensures
            final(self).state == MonitorState::Stopped(result),
            final(self).options == old(self).options,
            final(self).track_options == old(self).track_options,
    {
        self.state = MonitorState::Stopped(result);
    }

    /// The changed files, once the monitor has been stopped.
    pub fn get_changed_files(&self) -> (r: Result<&ChangeMap<WinPath>, ProcmonError>)
        ensures
            match self.state {
                MonitorState::Stopped(result) => r == Ok::<&ChangeMap<WinPath>, ProcmonError>(
                    &result.files,
                ),
                _ => r == Err::<&ChangeMap<WinPath>, ProcmonError>(ProcmonError::NotStopped),
            },
    {
        match &self.state {
            MonitorState::Stopped(result) => Ok(&result.files),
            _ => Err(ProcmonError::NotStopped),
        }
    }

    /// The changed registry keys, once the monitor has been stopped.
    pub fn get_changed_registry_keys(&self) -> (r: Option<&ChangeMap<RegistryKey>>)
        ensures
            match self.state {
                MonitorState::Stopped(result) => r == Some(&result.registry_keys),
                _ => r is None,
            },
    {
        match &self.state {
            MonitorState::Stopped(result) => Some(&result.registry_keys),
            _ => None,
        }
    }
}

proof fn lemma_sightings_come_from_entries(
    entries: Seq<(Event, Map<Seq<char>, Seq<char>>)>,
    sighting: spec_fn(Event, Map<Seq<char>, Seq<char>>) -> Option<(Seq<char>, ItemMetadata)>,
    i: int,
) -> (j: int)
    requires
        0 <= i < sightings(entries, sighting).len(),
    ensures
        0 <= j < entries.len(),
        sighting(entries[j].0, entries[j].1) == Some(sightings(entries, sighting)[i]),
    decreases entries.len(),
{
    let front = sightings(entries.drop_last(), sighting);
    if i < front.len() {
        lemma_sightings_come_from_entries(entries.drop_last(), sighting, i)
    } else {
        entries.len() - 1
    }
}

proof fn lemma_entries_give_sightings(
    entries: Seq<(Event, Map<Seq<char>, Seq<char>>)>,
    sighting: spec_fn(Event, Map<Seq<char>, Seq<char>>) -> Option<(Seq<char>, ItemMetadata)>,
    j: int,
) -> (i: int)
    requires
        0 <= j < entries.len(),
        sighting(entries[j].0, entries[j].1) is Some,
    ensures
        0 <= i < sightings(entries, sighting).len(),
        sighting(entries[j].0, entries[j].1) == Some(sightings(entries, sighting)[i]),
    decreases entries.len(),
{
    let front = sightings(entries.drop_last(), sighting);
    if j < entries.len() - 1 {
        assert(entries.drop_last()[j] == entries[j]);
        let i = lemma_entries_give_sightings(entries.drop_last(), sighting, j);
        assert(sightings(entries, sighting)[i] == front[i]);
        i
    } else {
        front.len() as int
    }
}

/// `watch` sees something of `path` in the entry `j`.
pub open spec fn reports(
    entries: Seq<(Event, Map<Seq<char>, Seq<char>>)>,
    watch: spec_fn(Event, Map<Seq<char>, Seq<char>>) -> Option<(Seq<char>, ItemMetadata)>,
    path: Seq<char>,
    j: int,
) -> bool {
    &&& 0 <= j < entries.len()
    &&& watch(entries[j].0, entries[j].1) is Some
    &&& (watch(entries[j].0, entries[j].1)->0).0 == path
}

/// What `watch` sees in the entry `j`.
pub open spec fn reported(
    entries: Seq<(Event, Map<Seq<char>, Seq<char>>)>,
    watch: spec_fn(Event, Map<Seq<char>, Seq<char>>) -> Option<(Seq<char>, ItemMetadata)>,
    j: int,
) -> ItemMetadata {
    (watch(entries[j].0, entries[j].1)->0).1
}

/// The changes of a log are what its entries report, whatever their order: an
/// item is listed exactly if some entry reports it, and a change is listed of
/// it exactly if some entry reports that change.
pub proof fn changes_are_what_entries_report(
    entries: Seq<(Event, Map<Seq<char>, Seq<char>>)>,
    watch: spec_fn(Event, Map<Seq<char>, Seq<char>>) -> Option<(Seq<char>, ItemMetadata)>,
    path: Seq<char>,
)
    ensures
        ({
            let found = gathered(sightings(entries, watch));
            &&& found.dom().contains(path) <==> exists|j: int| #[trigger]
                reports(entries, watch, path, j)
            &&& found.dom().contains(path) ==> {
                &&& found[path].created <==> exists|j: int| #[trigger]
                    reports(entries, watch, path, j) && reported(entries, watch, j).created
                &&& found[path].modified <==> exists|j: int| #[trigger]
                    reports(entries, watch, path, j) && reported(entries, watch, j).modified
                &&& found[path].deleted <==> exists|j: int| #[trigger]
                    reports(entries, watch, path, j) && reported(entries, watch, j).deleted
                &&& found[path].renamed <==> exists|j: int| #[trigger]
                    reports(entries, watch, path, j) && reported(entries, watch, j).renamed
            }
        }),
{
    let seen = sightings(entries, watch);
    crate::changes::gathered_is_the_union_of_sightings(seen, path);
    assert forall|i: int| 0 <= i < seen.len() && (#[trigger] seen[i]).0 == path implies exists|j: int|
        #[trigger] reports(entries, watch, path, j) && reported(entries, watch, j) == seen[i].1 by {
        let j = lemma_sightings_come_from_entries(entries, watch, i);
        assert(reports(entries, watch, path, j));
    }
    assert forall|j: int| #[trigger] reports(entries, watch, path, j) implies exists|i: int|
        0 <= i < seen.len() && (#[trigger] seen[i]).0 == path && seen[i].1 == reported(
            entries,
            watch,
            j,
        ) by {
        let i = lemma_entries_give_sightings(entries, watch, j);
        assert(seen[i].0 == path);
    }
}

/// Files are listed only with changes that are asked for, and never without a
/// change.
pub proof fn files_are_listed_for_wanted_changes(
    ops: Seq<FilesystemOperation>,
    options: MonitorOptions,
    track_options: TrackOptions,
    processes: Map<u32, Process>,
    entries: Seq<(Event, Map<Seq<char>, Seq<char>>)>,
    path: Seq<char>,
)
    requires
        log_files(ops, options, track_options, processes, entries).dom().contains(path),
    ensures
        ({
            let meta = log_files(ops, options, track_options, processes, entries)[path];
            &&& meta == wanted(options, meta)
            &&& meta != untouched()
        }),
{
    let watch = file_watch(ops, options, track_options, processes);
    changes_are_what_entries_report(entries, watch, path);
    let j = choose|j: int| #[trigger] reports(entries, watch, path, j);
    assert(reports(entries, watch, path, j));
    assert(reported(entries, watch, j) != untouched());
}

/// Registry keys are listed only if they are asked for, only with changes that
/// are asked for, and never without a change.
pub proof fn registry_keys_are_listed_for_wanted_changes(
    options: MonitorOptions,
    track_options: TrackOptions,
    processes: Map<u32, Process>,
    entries: Seq<(Event, Map<Seq<char>, Seq<char>>)>,
    path: Seq<char>,
)
    requires
        log_registry_keys(options, track_options, processes, entries).dom().contains(path),
    ensures
        ({
            let meta = log_registry_keys(options, track_options, processes, entries)[path];
            &&& options.add_registry
            &&& meta == wanted(options, meta)
            &&& meta != untouched()
        }),
{
    let watch = registry_watch(options, track_options, processes);
    changes_are_what_entries_report(entries, watch, path);
    let j = choose|j: int| #[trigger] reports(entries, watch, path, j);
    assert(reports(entries, watch, path, j));
    assert(reported(entries, watch, j) != untouched());
}

/// Everything that `less` lists, `more` lists too, with at least the same
/// changes.
pub open spec fn is_contained(
    less: Map<Seq<char>, ItemMetadata>,
    more: Map<Seq<char>, ItemMetadata>,
) -> bool {
    forall|path: Seq<char>| #[trigger]
        less.dom().contains(path) ==> more.dom().contains(path) && merged(less[path], more[path])
            == more[path]
}

proof fn lemma_watching_more(
    entries: Seq<(Event, Map<Seq<char>, Seq<char>>)>,
    less: spec_fn(Event, Map<Seq<char>, Seq<char>>) -> Option<(Seq<char>, ItemMetadata)>,
    more: spec_fn(Event, Map<Seq<char>, Seq<char>>) -> Option<(Seq<char>, ItemMetadata)>,
)
    requires
        forall|event: Event, details: Map<Seq<char>, Seq<char>>|
            (#[trigger] less(event, details)) is Some ==> more(event, details) == less(
                event,
                details,
            ),
    ensures
        is_contained(gathered(sightings(entries, less)), gathered(sightings(entries, more))),
{
    let listed = gathered(sightings(entries, less));
    assert forall|path: Seq<char>| #[trigger] listed.dom().contains(path) implies gathered(
        sightings(entries, more),
    ).dom().contains(path) && merged(listed[path], gathered(sightings(entries, more))[path])
        == gathered(sightings(entries, more))[path] by {
        changes_are_what_entries_report(entries, less, path);
        changes_are_what_entries_report(entries, more, path);
        assert forall|j: int| #[trigger] reports(entries, less, path, j) implies reports(
            entries,
            more,
            path,
            j,
        ) && reported(entries, more, j) == reported(entries, less, j) by {
            assert(less(entries[j].0, entries[j].1) is Some);
        }
    }
}

/// Without a process to track, every event that succeeded counts.
pub proof fn all_processes_are_tracked_by_default(
    track_options: TrackOptions,
    processes: Map<u32, Process>,
    event: Event,
)
    requires
        track_options.pid is None,
    ensures
        counts(track_options, processes, event) <==> event.result@ == "SUCCESS"@,
{
}

/// Tracking one process finds nothing that tracking all would not find.
pub proof fn tracking_one_process_finds_no_more(
    ops: Seq<FilesystemOperation>,
    options: MonitorOptions,
    track_options: TrackOptions,
    processes: Map<u32, Process>,
    entries: Seq<(Event, Map<Seq<char>, Seq<char>>)>,
)
    ensures
        ({
            let all = TrackOptions { pid: None, ..track_options };
            &&& is_contained(
                log_files(ops, options, track_options, processes, entries),
                log_files(ops, options, all, processes, entries),
            )
            &&& is_contained(
                log_registry_keys(options, track_options, processes, entries),
                log_registry_keys(options, all, processes, entries),
            )
        }),
{
    let all = TrackOptions { pid: None, ..track_options };
    lemma_watching_more(
        entries,
        file_watch(ops, options, track_options, processes),
        file_watch(ops, options, all, processes),
    );
    lemma_watching_more(
        entries,
        registry_watch(options, track_options, processes),
        registry_watch(options, all, processes),
    );
}

/// Tracking a process with its children finds all that tracking it without them
/// finds.
pub proof fn tracking_children_finds_no_less(
    ops: Seq<FilesystemOperation>,
    options: MonitorOptions,
    pid: u32,
    processes: Map<u32, Process>,
    entries: Seq<(Event, Map<Seq<char>, Seq<char>>)>,
)
    ensures
        ({
            let alone = TrackOptions { pid: Some(pid), no_children: true };
            let family = TrackOptions { pid: Some(pid), no_children: false };
            &&& is_contained(
                log_files(ops, options, alone, processes, entries),
                log_files(ops, options, family, processes, entries),
            )
            &&& is_contained(
                log_registry_keys(options, alone, processes, entries),
                log_registry_keys(options, family, processes, entries),
            )
        }),
{
    let alone = TrackOptions { pid: Some(pid), no_children: true };
    let family = TrackOptions { pid: Some(pid), no_children: false };
    assert forall|event: Event| #[trigger] counts(alone, processes, event) implies counts(
        family,
        processes,
        event,
    ) by {
        assert(ancestor_has_pid(processes, event.process_index, 0, pid));
    }
    lemma_watching_more(
        entries,
        file_watch(ops, options, alone, processes),
        file_watch(ops, options, family, processes),
    );
    lemma_watching_more(
        entries,
        registry_watch(options, alone, processes),
        registry_watch(options, family, processes),
    );
}

/// Listing the changes of a log by path is the same as gathering them by path in
/// the first place, where `path_of` gives the path that a name stands for.
pub proof fn changes_are_gathered_by_path(
    entries: Seq<(Event, Map<Seq<char>, Seq<char>>)>,
    watch: spec_fn(Event, Map<Seq<char>, Seq<char>>) -> Option<(Seq<char>, ItemMetadata)>,
    listed: Seq<(String, ItemMetadata)>,
    paths: Seq<WinPath>,
    path_of: spec_fn(Seq<char>) -> Seq<ComponentModel>,
)
    requires
        distinct_keys(listed),
        as_map(listed) == gathered(sightings(entries, watch)),
        paths.len() == listed.len(),
        forall|i: int|
            0 <= i < paths.len() ==> path_key((#[trigger] paths[i])@) == path_of(listed[i].0@),
    ensures
        gathered(keyed(with_names(listed, paths))) == gathered(
            sightings(entries, watch).map_values(
                |seen: (Seq<char>, ItemMetadata)| (path_of(seen.0), seen.1),
            ),
        ),
{
    crate::changes::regrouping_is_gathering_anew(
        sightings(entries, watch),
        listed,
        paths,
        path_of,
    );
}

} // verus!
