//! What a recording tells of files and registry keys, event by event.

use vstd::prelude::*;

use crate::item::{untouched, ItemAction, ItemMetadata};
use crate::laws::effects::{
    does_to_file, does_to_key, is_file_operation, is_registry_operation, lemma_file_effect,
    lemma_registry_effect, notes, renames,
};
use crate::laws::tracking::{belongs_to, lemma_descends};
use crate::monitor::details::{
    capture_views, details_from_captures, details_in, details_of, parse_all_details, parse_details,
    Details,
};
use crate::monitor::operations::{
    check_is_renaming_operation, file_operation, file_operation_from, get_file_operation,
    major_name, minor_name, minor_name_from, text_of, AdditionalFilesystemOperation,
    FilesystemOperation,
};
use crate::monitor::procmon::{
    all_details, changes_are_what_entries_report, detail_views, file_change, file_watch,
    process_map, registry_change, registry_watch, reported, reports, with_details, Event,
    LogChanges, LogError, LogFile, Process, ProcmonMonitor,
};
use crate::options::{MonitorOptions, TrackOptions};
use crate::text::trimmed;

verus! {

/// The minor function is meant by `operation`: by its name, or by what the driver
/// calls it together with the type of the event.
pub open spec fn minor_fits(
    minor: AdditionalFilesystemOperation,
    operation: Seq<char>,
    event_type: Option<Seq<char>>,
) -> bool {
    minor.name matches Some(name) && (name@ == operation || ((minor.irp@ == operation
        || minor.fastio@ == operation) && event_type == Some(name@)))
}

/// The minor function `j` is the first of `op` that is meant by `operation`.
pub open spec fn is_first_minor(
    op: FilesystemOperation,
    operation: Seq<char>,
    event_type: Option<Seq<char>>,
    j: int,
) -> bool {
    &&& 0 <= j < op.additional@.len()
    &&& minor_fits(op.additional@[j], operation, event_type)
    &&& forall|i: int| 0 <= i < j ==> !minor_fits(#[trigger] op.additional@[i], operation, event_type)
}

/// `op` knows `operation`: by either of its names or by a minor function.
pub open spec fn knows(
    op: FilesystemOperation,
    operation: Seq<char>,
    event_type: Option<Seq<char>>,
) -> bool {
    ||| op.to@ == operation
    ||| op.from@ == operation
    ||| exists|j: int|
        0 <= j < op.additional@.len() && minor_fits(
            #[trigger] op.additional@[j],
            operation,
            event_type,
        )
}

/// The operation `k` of the table is the first that knows `operation`.
pub open spec fn is_first_to_know(
    ops: Seq<FilesystemOperation>,
    operation: Seq<char>,
    event_type: Option<Seq<char>>,
    k: int,
) -> bool {
    &&& 0 <= k < ops.len()
    &&& knows(ops[k], operation, event_type)
    &&& forall|i: int| 0 <= i < k ==> !knows(#[trigger] ops[i], operation, event_type)
}

proof fn lemma_minor_name(
    additional: Seq<AdditionalFilesystemOperation>,
    i: int,
    operation: Seq<char>,
    event_type: Option<Seq<char>>,
)
    requires
        0 <= i <= additional.len(),
    ensures
        minor_name_from(additional, i, operation, event_type) is None <==> forall|j: int|
            i <= j < additional.len() ==> !minor_fits(
                #[trigger] additional[j],
                operation,
                event_type,
            ),
        minor_name_from(additional, i, operation, event_type) matches Some(name) ==> exists|j: int|
            i <= j < additional.len() && minor_fits(#[trigger] additional[j], operation, event_type)
                && (additional[j].name->0)@ == name && forall|k: int|
                i <= k < j ==> !minor_fits(#[trigger] additional[k], operation, event_type),
    decreases additional.len() - i,
{
    if i < additional.len() {
        lemma_minor_name(additional, i + 1, operation, event_type);
        assert(minor_name(additional[i], operation, event_type) is Some <==> minor_fits(
            additional[i],
            operation,
            event_type,
        ));
        if minor_name(additional[i], operation, event_type) is None {
            if let Some(name) = minor_name_from(additional, i + 1, operation, event_type) {
                let j = choose|j: int|
                    i + 1 <= j < additional.len() && minor_fits(
                        #[trigger] additional[j],
                        operation,
                        event_type,
                    ) && (additional[j].name->0)@ == name && forall|k: int|
                        i + 1 <= k < j ==> !minor_fits(
                            #[trigger] additional[k],
                            operation,
                            event_type,
                        );
                assert(minor_fits(additional[j], operation, event_type));
            }
        }
    }
}

proof fn lemma_file_operation(
    ops: Seq<FilesystemOperation>,
    i: int,
    operation: Seq<char>,
    event_type: Option<Seq<char>>,
)
    requires
        0 <= i <= ops.len(),
    ensures
        file_operation_from(ops, i, operation, event_type) is None <==> forall|k: int|
            i <= k < ops.len() ==> !knows(#[trigger] ops[k], operation, event_type),
        file_operation_from(ops, i, operation, event_type) matches Some(name) ==> exists|k: int|
            i <= k < ops.len() && knows(#[trigger] ops[k], operation, event_type) && major_name(
                ops[k],
                operation,
                event_type,
            ) == Some(name) && forall|h: int|
                i <= h < k ==> !knows(#[trigger] ops[h], operation, event_type),
    decreases ops.len() - i,
{
    if i < ops.len() {
        lemma_file_operation(ops, i + 1, operation, event_type);
        lemma_minor_name(ops[i].additional@, 0, operation, event_type);
        assert(major_name(ops[i], operation, event_type) is Some <==> knows(
            ops[i],
            operation,
            event_type,
        ));
        if major_name(ops[i], operation, event_type) is None {
            if let Some(name) = file_operation_from(ops, i + 1, operation, event_type) {
                let k = choose|k: int|
                    i + 1 <= k < ops.len() && knows(#[trigger] ops[k], operation, event_type)
                        && major_name(ops[k], operation, event_type) == Some(name) && forall|
                        h: int,
                    |
                        i + 1 <= h < k ==> !knows(#[trigger] ops[h], operation, event_type);
                assert(knows(ops[k], operation, event_type));
            }
        }
    }
}

/// An operation is shown under the name that the first entry of the table gives it
/// that knows it: if the entry has the name itself, under that name; if a minor
/// function is meant, under the name of the first such function; and otherwise
/// under the name of the entry. An operation that no entry knows is not shown.
pub proof fn operations_are_shown_by_the_first_that_knows_them(
    ops: &Vec<FilesystemOperation>,
    operation: &str,
    event_type: Option<&str>,
    r: Option<String>,
)
    requires
        call_ensures(get_file_operation, (ops, operation, event_type), r),
    ensures
        r is None <==> forall|k: int|
            0 <= k < ops@.len() ==> !knows(#[trigger] ops@[k], operation@, text_of(event_type)),
        r matches Some(name) ==> exists|k: int| #[trigger]
            is_first_to_know(ops@, operation@, text_of(event_type), k) && ({
                let op = ops@[k];
                &&& operation@ == op.to@ ==> name@ == op.to@
                &&& operation@ != op.to@ ==> ({
                    ||| exists|j: int| #[trigger]
                        is_first_minor(op, operation@, text_of(event_type), j) && name@ == (
                        op.additional@[j].name->0)@
                    ||| operation@ == op.from@ && name@ == op.to@ && forall|j: int|
                        0 <= j < op.additional@.len() ==> !minor_fits(
                            #[trigger] op.additional@[j],
                            operation@,
                            text_of(event_type),
                        )
                })
            }),
{
    let event_type = text_of(event_type);
    lemma_file_operation(ops@, 0, operation@, event_type);
    if let Some(name) = r {
        let k = choose|k: int|
            0 <= k < ops@.len() && knows(#[trigger] ops@[k], operation@, event_type) && major_name(
                ops@[k],
                operation@,
                event_type,
            ) == Some(name@) && forall|h: int|
                0 <= h < k ==> !knows(#[trigger] ops@[h], operation@, event_type);
        assert(is_first_to_know(ops@, operation@, event_type, k));
        let op = ops@[k];
        lemma_minor_name(op.additional@, 0, operation@, event_type);
        if operation@ != op.to@ && minor_name_from(op.additional@, 0, operation@, event_type) is Some {
            let j = choose|j: int|
                0 <= j < op.additional@.len() && minor_fits(
                    #[trigger] op.additional@[j],
                    operation@,
                    event_type,
                ) && (op.additional@[j].name->0)@ == name@ && forall|i: int|
                    0 <= i < j ==> !minor_fits(#[trigger] op.additional@[i], operation@, event_type);
            assert(is_first_minor(op, operation@, event_type, j));
        }
    }
}

/// The value of a detail is what the last match with that key holds; white space
/// around keys and values does not count.
pub proof fn the_last_value_of_a_detail_counts(
    captures: &Vec<Vec<Option<String>>>,
    r: Details,
    key: Seq<char>,
)
    requires
        call_ensures(details_from_captures, (captures,), r),
        forall|i: int|
            0 <= i < captures@.len() ==> (#[trigger] captures@[i])@.len() == 3
                && captures@[i]@[1] is Some && captures@[i]@[2] is Some,
    ensures
        r@.dom().contains(key) <==> exists|i: int|
            0 <= i < captures@.len() && trimmed(((#[trigger] captures@[i])@[1]->0)@) == key,
        forall|i: int|
            0 <= i < captures@.len() && trimmed(((#[trigger] captures@[i])@[1]->0)@) == key && (
            forall|k: int|
                i < k < captures@.len() ==> trimmed(((#[trigger] captures@[k])@[1]->0)@) != key)
                ==> r@[key] == trimmed((captures@[i]@[2]->0)@),
{
    let views = capture_views(captures@);
    assert forall|i: int| 0 <= i < captures@.len() implies (#[trigger] views[i]).len() == 3
        && views[i][1] == Some((captures@[i]@[1]->0)@) && views[i][2] == Some(
        (captures@[i]@[2]->0)@,
    ) by {}
    lemma_last_value(views, key);
    assert forall|i: int| 0 <= i < views.len() implies trimmed((#[trigger] views[i])[1]->0)
        == trimmed((captures@[i]@[1]->0)@) by {}
    if exists|i: int| 0 <= i < captures@.len() && trimmed(((#[trigger] captures@[i])@[1]->0)@) == key {
        let i = choose|i: int|
            0 <= i < captures@.len() && trimmed(((#[trigger] captures@[i])@[1]->0)@) == key;
        assert(trimmed(views[i][1]->0) == key);
    }
    if r@.dom().contains(key) {
        let i = choose|i: int| 0 <= i < views.len() && trimmed((#[trigger] views[i])[1]->0) == key;
        assert(trimmed((captures@[i]@[1]->0)@) == key);
    }
    assert forall|i: int|
        0 <= i < captures@.len() && trimmed(((#[trigger] captures@[i])@[1]->0)@) == key && (forall|
            k: int,
        |
            i < k < captures@.len() ==> trimmed(((#[trigger] captures@[k])@[1]->0)@)
                != key) implies r@[key] == trimmed((captures@[i]@[2]->0)@) by {
        assert(trimmed(views[i][1]->0) == key);
        assert forall|k: int| i < k < views.len() implies trimmed((#[trigger] views[k])[1]->0)
            != key by {
            assert(trimmed((captures@[k]@[1]->0)@) != key);
        }
    }
}

proof fn lemma_last_value(captures: Seq<Seq<Option<Seq<char>>>>, key: Seq<char>)
    ensures
        details_in(captures).dom().contains(key) <==> exists|i: int|
            0 <= i < captures.len() && trimmed((#[trigger] captures[i])[1]->0) == key,
        forall|i: int|
            0 <= i < captures.len() && trimmed((#[trigger] captures[i])[1]->0) == key && (forall|
                k: int,
            |
                i < k < captures.len() ==> trimmed((#[trigger] captures[k])[1]->0) != key)
                ==> details_in(captures)[key] == trimmed(captures[i][2]->0),
    decreases captures.len(),
{
    if captures.len() > 0 {
        let front = captures.drop_last();
        lemma_last_value(front, key);
        let last = captures.len() - 1;
        assert(captures[last] == captures.last());
        assert(forall|i: int| 0 <= i < front.len() ==> #[trigger] front[i] == captures[i]);
        assert(forall|i: int|
            0 <= i < captures.len() ==> i == last || #[trigger] captures[i] == front[i]);
        assert forall|i: int|
            0 <= i < captures.len() && trimmed((#[trigger] captures[i])[1]->0) == key && (forall|
                k: int,
            |
                i < k < captures.len() ==> trimmed((#[trigger] captures[k])[1]->0)
                    != key) implies details_in(captures)[key] == trimmed(captures[i][2]->0) by {
            if i < last {
                assert(trimmed(captures[last][1]->0) != key);
                assert(trimmed(front[i][1]->0) == key);
                assert forall|k: int| i < k < front.len() implies trimmed(
                    (#[trigger] front[k])[1]->0,
                ) != key by {
                    assert(trimmed(captures[k][1]->0) != key);
                }
            }
        }
    }
}

/// The options ask for the change `action`.
pub open spec fn asks_for(options: MonitorOptions, action: ItemAction) -> bool {
    match action {
        ItemAction::Create => options.creation,
        ItemAction::Modify => options.modification,
        ItemAction::Delete => options.deletion,
        ItemAction::Rename => options.renaming,
    }
}

/// The event is one of the registry, and the registry is asked for.
pub open spec fn is_about_registry(options: MonitorOptions, event: Event) -> bool {
    options.add_registry && is_registry_operation(event.operation@)
}

/// The operation renames a file and says to what.
pub open spec fn tells_new_name(
    operation: Seq<char>,
    details: Map<Seq<char>, Seq<char>>,
) -> bool {
    renames(operation) && details.dom().contains("FileName"@) && details["FileName"@].len() > 0
}

/// The operation under which an event is shown.
pub open spec fn shown_operation(
    ops: Seq<FilesystemOperation>,
    event: Event,
    details: Map<Seq<char>, Seq<char>>,
) -> Option<Seq<char>> {
    file_operation(
        ops,
        event.operation@,
        if details.dom().contains("Type"@) {
            Some(details["Type"@])
        } else {
            None
        },
    )
}

/// An event that is shown as `operation` tells of the change `action` to the file
/// `path`: the file of the event or, where the event gives a new name, the file of
/// that name.
pub open spec fn tells_of_file(
    operation: Seq<char>,
    options: MonitorOptions,
    event: Event,
    details: Map<Seq<char>, Seq<char>>,
    path: Seq<char>,
    action: ItemAction,
) -> bool {
    asks_for(options, action) && if tells_new_name(operation, details) {
        action == ItemAction::Rename && path == details["FileName"@]
    } else {
        does_to_file(operation, details, action) && path == event.path@
    }
}

/// An event tells of the change `action` to the registry key `path`.
pub open spec fn tells_of_key(
    options: MonitorOptions,
    event: Event,
    details: Map<Seq<char>, Seq<char>>,
    path: Seq<char>,
    action: ItemAction,
) -> bool {
    &&& is_about_registry(options, event)
    &&& asks_for(options, action)
    &&& does_to_key(event.operation@, details, action)
    &&& path == event.path@
}

proof fn lemma_renaming(operation: Seq<char>)
    ensures
        crate::monitor::operations::is_renaming_operation(operation) <==> renames(operation),
{
}

proof fn lemma_file_change(
    ops: Seq<FilesystemOperation>,
    options: MonitorOptions,
    event: Event,
    details: Map<Seq<char>, Seq<char>>,
    path: Seq<char>,
    action: ItemAction,
)
    ensures
        ({
            let shown = shown_operation(ops, event, details);
            let change = file_change(ops, options, event, details);
            &&& change is Some <==> shown is Some && is_file_operation(shown->0)
            &&& change matches Some((p, meta)) ==> (p == path && notes(meta, action)
                <==> tells_of_file(shown->0, options, event, details, path, action))
            &&& change matches Some((p, _)) ==> p == if tells_new_name(shown->0, details) {
                details["FileName"@]
            } else {
                event.path@
            }
        }),
{
    if let Some(operation) = shown_operation(ops, event, details) {
        lemma_renaming(operation);
        lemma_file_effect(operation, details, action);
    }
}

proof fn lemma_registry_change(
    options: MonitorOptions,
    event: Event,
    details: Map<Seq<char>, Seq<char>>,
    path: Seq<char>,
    action: ItemAction,
)
    ensures
        ({
            let change = registry_change(options, event, details);
            &&& change is Some <==> is_about_registry(options, event)
            &&& change matches Some((p, meta)) ==> (p == path && notes(meta, action)
                <==> tells_of_key(options, event, details, path, action))
            &&& change matches Some((p, _)) ==> p == event.path@
        }),
{
    lemma_registry_effect(event.operation@, details, action);
}

/// What one event says of a file: nothing if it is not shown as an operation of
/// the file system; else the file that it is about, with exactly those changes
/// that the operation makes and the options ask for.
pub proof fn an_event_tells_what_its_operation_does(
    ops: &Vec<FilesystemOperation>,
    options: &MonitorOptions,
    event: &Event,
    details: &Details,
    r: Option<(String, ItemMetadata)>,
    action: ItemAction,
)
    requires
        call_ensures(ProcmonMonitor::file_matches_with, (ops, options, event, details), r),
    ensures
        ({
            let shown = shown_operation(ops@, *event, details@);
            &&& r is Some <==> shown is Some && is_file_operation(shown->0)
            &&& r matches Some((path, meta)) ==> {
                &&& path@ == if tells_new_name(shown->0, details@) {
                    details@["FileName"@]
                } else {
                    event.path@
                }
                &&& notes(meta, action) <==> asks_for(*options, action) && if tells_new_name(
                    shown->0,
                    details@,
                ) {
                    action == ItemAction::Rename
                } else {
                    does_to_file(shown->0, details@, action)
                }
            }
        }),
{
    if let Some((path, _)) = r {
        lemma_file_change(ops@, *options, *event, details@, path@, action);
    } else {
        lemma_file_change(ops@, *options, *event, details@, event.path@, action);
    }
}

/// What one event says of a registry key: nothing if the registry is not asked for
/// or the operation is none of the registry; else its key, with exactly those
/// changes that the operation makes and the options ask for.
pub proof fn a_registry_event_tells_what_its_operation_does(
    options: &MonitorOptions,
    event: &Event,
    details: &Details,
    r: Option<(String, ItemMetadata)>,
    action: ItemAction,
)
    requires
        call_ensures(ProcmonMonitor::registry_matches_with, (options, event, details), r),
    ensures
        r is Some <==> options.add_registry && is_registry_operation(event.operation@),
        r matches Some((path, meta)) ==> {
            &&& path@ == event.path@
            &&& notes(meta, action) <==> asks_for(*options, action) && does_to_key(
                event.operation@,
                details@,
                action,
            )
        },
{
    lemma_registry_change(*options, *event, details@, event.path@, action);
}

/// `p` is what the log says of the process with the index `i`: the last that it
/// says.
pub open spec fn is_logged(processes: Seq<Process>, i: u32, p: Process) -> bool {
    exists|k: int|
        0 <= k < processes.len() && #[trigger] processes[k] == p && p.process_index == i && forall|
            h: int,
        |
            k < h < processes.len() ==> (#[trigger] processes[h]).process_index != i
}

/// Processes are known by their index: each by what the log says of it last.
pub proof fn processes_are_known_by_their_index(processes: Seq<Process>, i: u32)
    ensures
        process_map(processes).dom().contains(i) <==> exists|k: int|
            0 <= k < processes.len() && (#[trigger] processes[k]).process_index == i,
        process_map(processes).dom().contains(i) ==> is_logged(
            processes,
            i,
            process_map(processes)[i],
        ),
    decreases processes.len(),
{
    if processes.len() > 0 {
        let front = processes.drop_last();
        let last = processes.len() - 1;
        processes_are_known_by_their_index(front, i);
        assert(processes[last] == processes.last());
        assert(forall|k: int| 0 <= k < front.len() ==> #[trigger] front[k] == processes[k]);
        assert(forall|k: int|
            0 <= k < processes.len() ==> k == last || #[trigger] processes[k] == front[k]);
        if process_map(processes).dom().contains(i) && processes[last].process_index != i {
            let p = process_map(front)[i];
            let k = choose|k: int|
                0 <= k < front.len() && #[trigger] front[k] == p && p.process_index == i && forall|
                    h: int,
                |
                    k < h < front.len() ==> (#[trigger] front[h]).process_index != i;
            assert(processes[k] == p);
        }
    }
}

/// The event succeeded, and its process is one that is to be tracked.
pub open spec fn is_counted(
    track_options: TrackOptions,
    processes: Map<u32, Process>,
    event: Event,
) -> bool {
    &&& event.result@ == "SUCCESS"@
    &&& track_options.pid matches Some(pid) ==> belongs_to(
        processes,
        event.process_index,
        pid,
        !track_options.no_children,
    )
}

/// The event `j` of a log counts and tells of the change `action` to the file
/// `path`.
pub open spec fn event_tells_of_file(
    ops: Seq<FilesystemOperation>,
    options: MonitorOptions,
    track_options: TrackOptions,
    document: LogFile,
    details: Seq<Details>,
    path: Seq<char>,
    action: ItemAction,
    j: int,
) -> bool {
    let event = document.events.events@[j];
    &&& 0 <= j < document.events.events@.len()
    &&& is_counted(track_options, process_map(document.processes.processes@), event)
    &&& !is_about_registry(options, event)
    &&& shown_operation(ops, event, details[j]@) matches Some(operation) && tells_of_file(
        operation,
        options,
        event,
        details[j]@,
        path,
        action,
    )
}

/// The event `j` of a log counts and tells of the change `action` to the registry
/// key `path`.
pub open spec fn event_tells_of_key(
    options: MonitorOptions,
    track_options: TrackOptions,
    document: LogFile,
    details: Seq<Details>,
    path: Seq<char>,
    action: ItemAction,
    j: int,
) -> bool {
    let event = document.events.events@[j];
    &&& 0 <= j < document.events.events@.len()
    &&& is_counted(track_options, process_map(document.processes.processes@), event)
    &&& tells_of_key(options, event, details[j]@, path, action)
}

proof fn lemma_does_is_known(
    operation: Seq<char>,
    details: Map<Seq<char>, Seq<char>>,
    action: ItemAction,
)
    ensures
        does_to_file(operation, details, action) ==> is_file_operation(operation),
        does_to_key(operation, details, action) ==> is_registry_operation(operation),
        renames(operation) ==> is_file_operation(operation),
{
}

proof fn lemma_some_change(meta: ItemMetadata)
    ensures
        meta != untouched() <==> notes(meta, ItemAction::Create) || notes(meta, ItemAction::Modify)
            || notes(meta, ItemAction::Delete) || notes(meta, ItemAction::Rename),
{
}

proof fn lemma_file_report(
    ops: Seq<FilesystemOperation>,
    options: MonitorOptions,
    track_options: TrackOptions,
    document: LogFile,
    details: Seq<Details>,
    path: Seq<char>,
    action: ItemAction,
    j: int,
)
    requires
        details.len() == document.events.events@.len(),
    ensures
        ({
            let processes = process_map(document.processes.processes@);
            let entries = with_details(document.events.events@, detail_views(details));
            let watch = file_watch(ops, options, track_options, processes);
            event_tells_of_file(ops, options, track_options, document, details, path, action, j)
                <==> reports(entries, watch, path, j) && notes(reported(entries, watch, j), action)
        }),
{
    if 0 <= j < details.len() {
        let event = document.events.events@[j];
        let processes = process_map(document.processes.processes@);
        let entries = with_details(document.events.events@, detail_views(details));
        assert(entries[j] == (event, details[j]@));
        lemma_file_change(ops, options, event, details[j]@, path, action);
        lemma_registry_change(options, event, details[j]@, path, action);
        if let Some(pid) = track_options.pid {
            lemma_descends(processes, event.process_index, pid, !track_options.no_children);
        }
        if let Some(operation) = shown_operation(ops, event, details[j]@) {
            lemma_does_is_known(operation, details[j]@, action);
        }
        if let Some((_, meta)) = file_change(ops, options, event, details[j]@) {
            lemma_some_change(meta);
        }
    }
}

proof fn lemma_key_report(
    options: MonitorOptions,
    track_options: TrackOptions,
    document: LogFile,
    details: Seq<Details>,
    path: Seq<char>,
    action: ItemAction,
    j: int,
)
    requires
        details.len() == document.events.events@.len(),
    ensures
        ({
            let processes = process_map(document.processes.processes@);
            let entries = with_details(document.events.events@, detail_views(details));
            let watch = registry_watch(options, track_options, processes);
            event_tells_of_key(options, track_options, document, details, path, action, j)
                <==> reports(entries, watch, path, j) && notes(reported(entries, watch, j), action)
        }),
{
    if 0 <= j < details.len() {
        let event = document.events.events@[j];
        let processes = process_map(document.processes.processes@);
        let entries = with_details(document.events.events@, detail_views(details));
        assert(entries[j] == (event, details[j]@));
        lemma_registry_change(options, event, details[j]@, path, action);
        if let Some(pid) = track_options.pid {
            lemma_descends(processes, event.process_index, pid, !track_options.no_children);
        }
        if let Some((_, meta)) = registry_change(options, event, details[j]@) {
            lemma_some_change(meta);
        }
    }
}

/// A log lists a change of a file exactly if one of its events counts and tells of
/// that change, and it lists no file without a change.
pub proof fn a_log_lists_what_its_events_tell_of_files(
    ops: &Vec<FilesystemOperation>,
    options: &MonitorOptions,
    track_options: &TrackOptions,
    document: LogFile,
    details: &Vec<Details>,
    r: Result<LogChanges, LogError>,
    path: Seq<char>,
    action: ItemAction,
)
    requires
        call_ensures(
            ProcmonMonitor::analyze_with,
            (ops, options, track_options, document, details),
            r,
        ),
        details@.len() == document.events.events@.len(),
    ensures
        r matches Ok(found) ==> {
            &&& found.files@.dom().contains(path) && notes(found.files@[path], action) <==> exists|
                j: int,
            | #[trigger]
                event_tells_of_file(
                    ops@,
                    *options,
                    *track_options,
                    document,
                    details@,
                    path,
                    action,
                    j,
                )
            &&& found.files@.dom().contains(path) ==> notes(found.files@[path], ItemAction::Create)
                || notes(found.files@[path], ItemAction::Modify) || notes(
                found.files@[path],
                ItemAction::Delete,
            ) || notes(found.files@[path], ItemAction::Rename)
        },
{
    if let Ok(found) = r {
        let processes = process_map(document.processes.processes@);
        let entries = with_details(document.events.events@, detail_views(details@));
        let watch = file_watch(ops@, *options, *track_options, processes);
        changes_are_what_entries_report(entries, watch, path);
        assert forall|j: int|
            #![trigger event_tells_of_file(
                ops@,
                *options,
                *track_options,
                document,
                details@,
                path,
                action,
                j,
            )]
            #![trigger reports(entries, watch, path, j)]
            event_tells_of_file(
                ops@,
                *options,
                *track_options,
                document,
                details@,
                path,
                action,
                j,
            ) <==> reports(entries, watch, path, j) && notes(reported(entries, watch, j), action) by {
            lemma_file_report(
                ops@,
                *options,
                *track_options,
                document,
                details@,
                path,
                action,
                j,
            );
        }
        if found.files@.dom().contains(path) {
            let j = choose|j: int| #[trigger] reports(entries, watch, path, j);
            lemma_some_change(reported(entries, watch, j));
            assert(reports(entries, watch, path, j));
        }
    }
}

/// A log lists a change of a registry key exactly if one of its events counts and
/// tells of that change, and it lists no key without a change.
pub proof fn a_log_lists_what_its_events_tell_of_keys(
    ops: &Vec<FilesystemOperation>,
    options: &MonitorOptions,
    track_options: &TrackOptions,
    document: LogFile,
    details: &Vec<Details>,
    r: Result<LogChanges, LogError>,
    path: Seq<char>,
    action: ItemAction,
)
    requires
        call_ensures(
            ProcmonMonitor::analyze_with,
            (ops, options, track_options, document, details),
            r,
        ),
        details@.len() == document.events.events@.len(),
    ensures
        r matches Ok(found) ==> {
            let keys = found.registry_keys@;
            &&& keys.dom().contains(path) && notes(keys[path], action) <==> exists|
                j: int,
            | #[trigger]
                event_tells_of_key(*options, *track_options, document, details@, path, action, j)
            &&& keys.dom().contains(path) ==> notes(keys[path], ItemAction::Create) || notes(
                keys[path],
                ItemAction::Modify,
            ) || notes(keys[path], ItemAction::Delete) || notes(keys[path], ItemAction::Rename)
        },
{
    if let Ok(found) = r {
        let processes = process_map(document.processes.processes@);
        let entries = with_details(document.events.events@, detail_views(details@));
        let watch = registry_watch(*options, *track_options, processes);
        changes_are_what_entries_report(entries, watch, path);
        assert forall|j: int|
            #![trigger event_tells_of_key(
                *options,
                *track_options,
                document,
                details@,
                path,
                action,
                j,
            )]
            #![trigger reports(entries, watch, path, j)]
            event_tells_of_key(*options, *track_options, document, details@, path, action, j)
                <==> reports(entries, watch, path, j) && notes(
                reported(entries, watch, j),
                action,
            ) by {
            lemma_key_report(*options, *track_options, document, details@, path, action, j);
        }
        if found.registry_keys@.dom().contains(path) {
            let j = choose|j: int| #[trigger] reports(entries, watch, path, j);
            lemma_some_change(reported(entries, watch, j));
            assert(reports(entries, watch, path, j));
        }
    }
}

/// A log is refused exactly if a process is to be tracked that it does not know.
pub proof fn a_log_needs_the_tracked_process(
    ops: &Vec<FilesystemOperation>,
    options: &MonitorOptions,
    track_options: &TrackOptions,
    document: LogFile,
    details: &Vec<Details>,
    r: Result<LogChanges, LogError>,
)
    requires
        call_ensures(
            ProcmonMonitor::analyze_with,
            (ops, options, track_options, document, details),
            r,
        ),
        details@.len() == document.events.events@.len(),
    ensures
        r is Err <==> (track_options.pid matches Some(pid) && forall|i: int|
            0 <= i < document.processes.processes@.len() ==> (
            #[trigger] document.processes.processes@[i]).process_id != pid),
        r matches Err(LogError::NoSuchProcess { pid }) ==> track_options.pid == Some(pid),
{
}

/// A log is read with the details that stand in it.
pub proof fn a_log_is_read_with_its_own_details(
    ops: &Vec<FilesystemOperation>,
    options: &MonitorOptions,
    track_options: &TrackOptions,
    document: LogFile,
    columns: &Vec<&str>,
    details: Vec<Details>,
    r: Result<LogChanges, LogError>,
    s: Result<LogChanges, LogError>,
)
    requires
        call_ensures(ProcmonMonitor::analyze, (ops, options, track_options, document), r),
        columns@.len() == document.events.events@.len(),
        forall|i: int|
            0 <= i < columns@.len() ==> (#[trigger] columns@[i])@
                == document.events.events@[i].detail@,
        call_ensures(parse_all_details, (columns,), details),
        call_ensures(
            ProcmonMonitor::analyze_with,
            (ops, options, track_options, document, &details),
            s,
        ),
    ensures
        match r {
            Ok(found) => s matches Ok(same) && found.files@ == same.files@ && found.registry_keys@
                == same.registry_keys@,
            Err(e) => s matches Err(f) && e == f,
        },
{
    assert forall|i: int| 0 <= i < details@.len() implies #[trigger] detail_views(details@)[i]
        == all_details(document.events.events@)[i] by {
        assert(details@[i]@ == details_of(columns@[i]@));
    }
    assert(detail_views(details@) =~= all_details(document.events.events@));
}

/// An event is read with the details that stand in it.
pub proof fn an_event_is_read_with_its_own_details(
    ops: &Vec<FilesystemOperation>,
    options: &MonitorOptions,
    event: &Event,
    column: &str,
    details: Details,
    file: Option<(String, ItemMetadata)>,
    file_with: Option<(String, ItemMetadata)>,
    key: Option<(String, ItemMetadata)>,
    key_with: Option<(String, ItemMetadata)>,
)
    requires
        column@ == event.detail@,
        call_ensures(parse_details, (column,), details),
        call_ensures(ProcmonMonitor::file_matches, (ops, options, event), file),
        call_ensures(
            ProcmonMonitor::file_matches_with,
            (ops, options, event, &details),
            file_with,
        ),
        call_ensures(ProcmonMonitor::registry_matches, (options, event), key),
        call_ensures(
            ProcmonMonitor::registry_matches_with,
            (options, event, &details),
            key_with,
        ),
    ensures
        match file {
            Some((path, meta)) => file_with matches Some((p, m)) && p@ == path@ && m == meta,
            None => file_with is None,
        },
        match key {
            Some((path, meta)) => key_with matches Some((p, m)) && p@ == path@ && m == meta,
            None => key_with is None,
        },
{
}

/// Two operations tell the new name of a file.
pub proof fn two_operations_tell_a_new_name(operation: &str, r: bool)
    requires
        call_ensures(check_is_renaming_operation, (operation,), r),
    ensures
        r <==> operation@ == "SetRenameInformationEx"@ || operation@
            == "SetRenameInformationExBypassAccessCheck"@,
{
}

/// What is looked up in the details is what they say.
pub proof fn details_say_what_is_looked_up(
    details: Details,
    key: &str,
    r: Option<&str>,
)
    requires
        call_ensures(Details::get, (&details, key), r),
    ensures
        r is Some <==> details@.dom().contains(key@),
        r matches Some(value) ==> value@ == details@[key@],
{
}

} // verus!
