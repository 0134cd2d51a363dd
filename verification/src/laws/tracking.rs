//! Which events of a recording belong to a process and its descendants.

use std::collections::BTreeMap;

use vstd::prelude::*;

use crate::monitor::procmon::{
    ancestor, ancestor_has_pid, descends_from, parent_step, Event, Process, ProcmonMonitor,
};

verus! {

/// `line` leads from a process to its parent, from there to the parent of that
/// one, and so on. Every process of the line is in the log, and only the last one
/// may be its own parent.
pub open spec fn is_line(processes: Map<u32, Process>, line: Seq<u32>) -> bool {
    &&& line.len() > 0
    &&& forall|k: int| 0 <= k < line.len() ==> processes.dom().contains(#[trigger] line[k])
    &&& forall|k: int|
        0 <= k < line.len() - 1 ==> processes[#[trigger] line[k]].parent_process_index
            != processes[line[k]].process_index && line[k + 1]
            == processes[line[k]].parent_process_index
}

/// `line` leads from the process `index` to one with the process ID `pid`.
pub open spec fn leads_to(
    processes: Map<u32, Process>,
    line: Seq<u32>,
    index: u32,
    pid: u32,
) -> bool {
    is_line(processes, line) && line[0] == index && processes[line.last()].process_id == pid
}

proof fn lemma_line_is_ancestors(processes: Map<u32, Process>, line: Seq<u32>, k: nat)
    requires
        is_line(processes, line),
        k < line.len(),
    ensures
        ancestor(processes, line[0], k) == Some(line[k as int]),
    decreases k,
{
    if k > 0 {
        lemma_line_is_ancestors(processes, line, (k - 1) as nat);
        assert(line[(k - 1) + 1] == processes[line[k - 1]].parent_process_index);
    }
}

proof fn lemma_ancestors_are_a_line(processes: Map<u32, Process>, index: u32, n: nat) -> (line: Seq<
    u32,
>)
    requires
        ancestor(processes, index, n) matches Some(i) && processes.dom().contains(i),
    ensures
        is_line(processes, line),
        line.len() == n + 1,
        line[0] == index,
        Some(line.last()) == ancestor(processes, index, n),
    decreases n,
{
    if n == 0 {
        seq![index]
    } else {
        let before = ancestor(processes, index, (n - 1) as nat);
        assert(parent_step(processes, before) is Some);
        let front = lemma_ancestors_are_a_line(processes, index, (n - 1) as nat);
        let line = front.push(ancestor(processes, index, n)->0);
        assert forall|k: int| 0 <= k < line.len() - 1 implies processes[#[trigger] line[k]].parent_process_index
            != processes[line[k]].process_index && line[k + 1]
            == processes[line[k]].parent_process_index by {
            assert(line[k] == front[k]);
            if k < front.len() - 1 {
                assert(front[k + 1] == processes[front[k]].parent_process_index);
            }
        }
        line
    }
}

/// The event belongs to the process ID `pid`: its process has this ID or, with
/// `recurse`, a line of parents leads from it to one that has it.
pub open spec fn belongs_to(
    processes: Map<u32, Process>,
    index: u32,
    pid: u32,
    recurse: bool,
) -> bool {
    if recurse {
        exists|line: Seq<u32>| #[trigger] leads_to(processes, line, index, pid)
    } else {
        processes.dom().contains(index) && processes[index].process_id == pid
    }
}

pub(crate) proof fn lemma_descends(
    processes: Map<u32, Process>,
    index: u32,
    pid: u32,
    recurse: bool,
)
    ensures
        descends_from(processes, index, pid, recurse) <==> belongs_to(
            processes,
            index,
            pid,
            recurse,
        ),
{
    if descends_from(processes, index, pid, recurse) {
        let n = choose|n: nat|
            (recurse || n == 0) && #[trigger] ancestor_has_pid(processes, index, n, pid);
        let line = lemma_ancestors_are_a_line(processes, index, n);
        assert(leads_to(processes, line, index, pid));
    }
    if recurse && exists|line: Seq<u32>| #[trigger] leads_to(processes, line, index, pid) {
        let line = choose|line: Seq<u32>| #[trigger] leads_to(processes, line, index, pid);
        lemma_line_is_ancestors(processes, line, (line.len() - 1) as nat);
        assert(ancestor_has_pid(processes, index, (line.len() - 1) as nat, pid));
    }
    if !recurse && processes.dom().contains(index) && processes[index].process_id == pid {
        assert(ancestor_has_pid(processes, index, 0, pid));
    }
}

/// An event matches a process ID exactly if a line of parents leads from its
/// process to one that has this ID. Without recursion the line is the process
/// itself. Nothing else of the processes and of the event plays a part.
pub proof fn matching_follows_the_line_of_parents(
    filter_pid: u32,
    recurse: bool,
    processes: &BTreeMap<u32, Process>,
    event: &Event,
    r: bool,
)
    requires
        call_ensures(ProcmonMonitor::pid_matches, (filter_pid, recurse, processes, event), r),
    ensures
        recurse ==> (r <==> exists|line: Seq<u32>| #[trigger]
            leads_to(processes@, line, event.process_index, filter_pid)),
        !recurse ==> (r <==> processes@.dom().contains(event.process_index)
            && processes@[event.process_index].process_id == filter_pid),
{
    lemma_descends(processes@, event.process_index, filter_pid, recurse);
}

/// With recursion every event of a child matches each process ID that an event of
/// its parent matches, whatever else the log says of the two processes.
pub proof fn children_match_with_their_parents(
    filter_pid: u32,
    processes: &BTreeMap<u32, Process>,
    parent_event: &Event,
    child_event: &Event,
    parent_matches: bool,
    child_matches: bool,
)
    requires
        call_ensures(
            ProcmonMonitor::pid_matches,
            (filter_pid, true, processes, parent_event),
            parent_matches,
        ),
        call_ensures(
            ProcmonMonitor::pid_matches,
            (filter_pid, true, processes, child_event),
            child_matches,
        ),
        processes@.dom().contains(child_event.process_index),
        ({
            let child = processes@[child_event.process_index];
            child.parent_process_index == parent_event.process_index && child.parent_process_index
                != child.process_index
        }),
    ensures
        parent_matches ==> child_matches,
        child_matches ==> parent_matches || processes@[child_event.process_index].process_id
            == filter_pid,
{
    matching_follows_the_line_of_parents(
        filter_pid,
        true,
        processes,
        parent_event,
        parent_matches,
    );
    matching_follows_the_line_of_parents(filter_pid, true, processes, child_event, child_matches);
    let parent = parent_event.process_index;
    let child = child_event.process_index;
    if parent_matches {
        let line = choose|line: Seq<u32>| #[trigger]
            leads_to(processes@, line, parent, filter_pid);
        let longer = seq![child] + line;
        assert forall|k: int| 0 <= k < longer.len() - 1 implies processes@[#[trigger] longer[k]].parent_process_index
            != processes@[longer[k]].process_index && longer[k + 1]
            == processes@[longer[k]].parent_process_index by {
            if k > 0 {
                assert(longer[k] == line[k - 1]);
                assert(line[(k - 1) + 1] == processes@[line[k - 1]].parent_process_index);
            }
        }
        assert(leads_to(processes@, longer, child, filter_pid));
    }
    if child_matches && processes@[child].process_id != filter_pid {
        let line = choose|line: Seq<u32>| #[trigger] leads_to(processes@, line, child, filter_pid);
        let shorter = line.drop_first();
        assert(line.len() > 1);
        let first: int = 0;
        assert(line[first + 1] == processes@[line[first]].parent_process_index);
        assert forall|k: int| 0 <= k < shorter.len() - 1 implies processes@[#[trigger] shorter[k]].parent_process_index
            != processes@[shorter[k]].process_index && shorter[k + 1]
            == processes@[shorter[k]].parent_process_index by {
            assert(shorter[k] == line[k + 1]);
            assert(line[(k + 1) + 1] == processes@[line[k + 1]].parent_process_index);
        }
        assert(leads_to(processes@, shorter, parent, filter_pid));
    }
}

} // verus!
