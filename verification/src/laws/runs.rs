//! What happens from the start of a run to its end.

use vstd::prelude::*;

use crate::changes::ChangeMap;
use crate::item::ItemAction;
use crate::laws::effects::notes;
use crate::laws::watching::{lemma_more_notifications, notification_tells};
use crate::monitor::journal::{record_views, UsnRecord, UsnRecordModel};
use crate::monitor::procmon::{MonitorResult, ProcmonError, ProcmonMonitor, RegistryKey};
use crate::monitor::session::{RecordingSession, SessionAction, SessionEvent};
use crate::monitor::usn::{
    records_before, EnumRead, MftEnumData, RangeRead, Usn, UsnJournalData, UsnMonitor,
    UsnMonitorError,
};
use crate::monitor::winapi::{
    FileNotification, Watch, WatchError, WatchEvent, WatchStep, WinApi, WinApiMonitor,
    WinApiMonitorError,
};
use crate::monitor::{new_boxed, AnyMonitor, MonitorError};
use crate::options::{MonitorMethod, MonitorOptions, TrackOptions};
use crate::overlapped_future::{is_completed, OverlappedFuture, OverlappedPoll, OverlappedStatus};
use crate::path::WinPath;

verus! {

/// A run over the journal covers what was written between its start and its stop:
/// from the record that was next at the start up to the one that was next at the
/// stop.
pub proof fn a_run_covers_what_lies_between_start_and_stop(
    first: &mut UsnMonitor,
    start_query: &UsnJournalData,
    second: &mut UsnMonitor,
    stop_query: &UsnJournalData,
    third: &UsnMonitor,
    stopped: Result<(), UsnMonitorError>,
    r: Result<(i64, i64), UsnMonitorError>,
)
    requires
        call_ensures(UsnMonitor::start, (first, start_query), ()),
        *old(second) == *final(first),
        call_ensures(UsnMonitor::stop, (second, stop_query), stopped),
        *third == *final(second),
        call_ensures(UsnMonitor::range, (third,), r),
    ensures
        stopped is Ok,
        r matches Ok((start, end)) && start == start_query.next_usn && end == stop_query.next_usn,
        third.options == old(first).options,
        third.usn == old(first).usn,
{
}

/// A monitor that was not started cannot be stopped, one that was stopped cannot be
/// stopped again, and neither attempt changes anything.
pub proof fn only_a_running_monitor_is_stopped(
    monitor: &mut UsnMonitor,
    query: &UsnJournalData,
    r: Result<(), UsnMonitorError>,
)
    requires
        call_ensures(UsnMonitor::stop, (monitor, query), r),
    ensures
        old(monitor).initial_usn is None ==> r == Err::<(), UsnMonitorError>(
            UsnMonitorError::NotStarted,
        ) && *final(monitor) == *old(monitor),
        old(monitor).initial_usn is Some && old(monitor).end_usn is Some ==> r == Err::<
            (),
            UsnMonitorError,
        >(UsnMonitorError::AlreadyStopped) && *final(monitor) == *old(monitor),
{
}

/// A monitor has no range before it was started and stopped.
pub proof fn a_range_needs_start_and_stop(
    monitor: &UsnMonitor,
    r: Result<(i64, i64), UsnMonitorError>,
)
    requires
        call_ensures(UsnMonitor::range, (monitor,), r),
    ensures
        monitor.initial_usn is None ==> r == Err::<(i64, i64), UsnMonitorError>(
            UsnMonitorError::NotStarted,
        ),
        monitor.initial_usn is Some && monitor.end_usn is None ==> r == Err::<
            (i64, i64),
            UsnMonitorError,
        >(UsnMonitorError::NotStopped),
{
}

proof fn lemma_records_before(records: Seq<UsnRecordModel>, end: i64)
    ensures
        records_before(records, end) == records.filter(|r: UsnRecordModel| r.usn() < end),
    decreases records.len(),
{
    reveal(Seq::filter);
    if records.len() > 0 {
        lemma_records_before(records.drop_last(), end);
    }
}

/// Of a reply all records are taken as long as the range goes on behind it, and
/// reading goes on at the record that the reply names as the next. Of a reply that
/// leads past the end of the range, those records are taken that come before the
/// end, and reading is over.
pub proof fn a_reply_adds_its_records(
    reading: &mut RangeRead,
    next_usn: i64,
    records: Vec<UsnRecord>,
)
    requires
        call_ensures(RangeRead::accept, (reading, next_usn, records), ()),
    ensures
        final(reading).end == old(reading).end,
        next_usn <= old(reading).end ==> {
            &&& record_views(final(reading).records@) == record_views(old(reading).records@)
                + record_views(records@)
            &&& final(reading).input.start_usn == next_usn
            &&& final(reading).finished == old(reading).finished
        },
        next_usn > old(reading).end ==> {
            &&& record_views(final(reading).records@) == record_views(old(reading).records@)
                + record_views(records@).filter(|r: UsnRecordModel| r.usn() < old(reading).end)
            &&& final(reading).input == old(reading).input
            &&& final(reading).finished
        },
        final(reading).input.usn_journal_id == old(reading).input.usn_journal_id,
        final(reading).input.reason_mask == old(reading).input.reason_mask,
        final(reading).input.bytes_to_wait_for == old(reading).input.bytes_to_wait_for,
        final(reading).input.min_major_version == old(reading).input.min_major_version,
        final(reading).input.max_major_version == old(reading).input.max_major_version,
{
    let end = old(reading).end;
    lemma_records_before(record_views(records@), end);
    assert(final(reading)@.input == final(reading).input);
    assert(final(reading)@.end == final(reading).end);
    assert(final(reading)@.finished == final(reading).finished);
}

/// The file table is listed from its start for the whole range, until its end was
/// reached.
pub proof fn the_file_table_is_listed_from_its_start(
    range: core::ops::Range<i64>,
    r: EnumRead,
    next: Option<MftEnumData>,
)
    requires
        call_ensures(Usn::enum_range, (range,), r),
        call_ensures(EnumRead::next_request, (&r,), next),
    ensures
        next matches Some(input) && input.start_file_reference_number == 0 && input.low_usn
            == range.start && input.high_usn == range.end && input.min_major_version == 2
            && input.max_major_version == 4,
{
    assert(r@.input == r.input);
    assert(r@.finished == r.finished);
}

/// What the notifications tell is noted besides what was noted before, as long as
/// they can be read. What cannot be read, or an error of the system, ends the
/// watching as a failure, unless the watching was called off.
pub proof fn a_watching_goes_on_until_it_is_called_off(
    watch: &mut Watch,
    event: WatchEvent<'_>,
    step: WatchStep,
    read: Result<Vec<FileNotification>, WatchError>,
    name: Seq<u16>,
    action: ItemAction,
)
    requires
        call_ensures(Watch::step, (watch, event), step),
        event matches WatchEvent::Filled { buffer, bytes_returned } ==> call_ensures(
            WinApi::read_changes,
            (buffer, bytes_returned),
            read,
        ),
    ensures
        final(watch).options == old(watch).options,
        match event {
            WatchEvent::Filled { .. } => match read {
                Ok(notifications) => {
                    &&& step == WatchStep::Wait
                    &&& final(watch).changes@.dom().contains(name) && notes(
                        final(watch).changes@[name],
                        action,
                    ) <==> (old(watch).changes@.dom().contains(name) && notes(
                        old(watch).changes@[name],
                        action,
                    )) || exists|j: int|
                        0 <= j < notifications@.len() && notification_tells(
                            old(watch).options,
                            (#[trigger] notifications@[j])@,
                            name,
                            action,
                        )
                },
                Err(e) => step == WatchStep::Fail(e) && final(watch).changes@ == old(
                    watch,
                ).changes@,
            },
            WatchEvent::Failed { code } => {
                &&& final(watch).changes@ == old(watch).changes@
                &&& code == -2147023901i32 ==> step == WatchStep::Finish
                &&& code != -2147023901i32 ==> step == WatchStep::Fail(WatchError::System { code })
            },
        },
{
    if let WatchEvent::Filled { .. } = event {
        if let Ok(notifications) = read {
            let views = crate::monitor::winapi::notification_views(notifications@);
            lemma_more_notifications(old(watch).options, old(watch).changes@, views, name, action);
            if exists|j: int|
                0 <= j < views.len() && notification_tells(
                    old(watch).options,
                    #[trigger] views[j],
                    name,
                    action,
                ) {
                let j = choose|j: int|
                    0 <= j < views.len() && notification_tells(
                        old(watch).options,
                        #[trigger] views[j],
                        name,
                        action,
                    );
                assert(views[j] == notifications@[j]@);
            }
            if exists|j: int|
                0 <= j < notifications@.len() && notification_tells(
                    old(watch).options,
                    (#[trigger] notifications@[j])@,
                    name,
                    action,
                ) {
                let j = choose|j: int|
                    0 <= j < notifications@.len() && notification_tells(
                        old(watch).options,
                        (#[trigger] notifications@[j])@,
                        name,
                        action,
                    );
                assert(notification_tells(old(watch).options, views[j], name, action));
            }
        }
    }
}

/// A watching that was started and stopped shows what it came to, and one that was
/// not started has nothing to stop.
pub proof fn a_stopped_watching_shows_its_result(
    first: &mut WinApiMonitor,
    second: &mut WinApiMonitor,
    third: &mut WinApiMonitor,
    stopping: bool,
    result: Result<ChangeMap<WinPath>, WatchError>,
    last: &WinApiMonitor,
    r: Result<&ChangeMap<WinPath>, WinApiMonitorError>,
)
    requires
        call_ensures(WinApiMonitor::start, (first,), ()),
        *old(second) == *final(first),
        call_ensures(WinApiMonitor::begin_stop, (second,), stopping),
        *old(third) == *final(second),
        call_ensures(WinApiMonitor::finish_stop, (third, result), ()),
        *last == *final(third),
        call_ensures(WinApiMonitor::get_changed_files, (last,), r),
    ensures
        stopping,
        match result {
            Ok(changes) => r matches Ok(shown) && *shown == changes,
            Err(e) => r matches Err(reason) && reason == WinApiMonitorError::Failed(e),
        },
        last.options == old(first).options,
        last.api == old(first).api,
{
}

/// A monitor that was not stopped has nothing to show.
pub proof fn a_watching_shows_nothing_before_it_is_stopped(
    monitor: &WinApiMonitor,
    r: Result<&ChangeMap<WinPath>, WinApiMonitorError>,
)
    requires
        call_ensures(WinApiMonitor::get_changed_files, (monitor,), r),
        !(monitor.state is Stopped),
    ensures
        r matches Err(e) && e == WinApiMonitorError::NotStopped,
{
}

/// A recording that was started and stopped shows what it came to.
pub proof fn a_stopped_recording_shows_its_result(
    first: &mut ProcmonMonitor,
    second: &mut ProcmonMonitor,
    third: &mut ProcmonMonitor,
    stopping: bool,
    result: MonitorResult,
    last: &ProcmonMonitor,
    files: Result<&ChangeMap<WinPath>, ProcmonError>,
    keys: Option<&ChangeMap<RegistryKey>>,
)
    requires
        call_ensures(ProcmonMonitor::start, (first,), ()),
        *old(second) == *final(first),
        call_ensures(ProcmonMonitor::begin_stop, (second,), stopping),
        *old(third) == *final(second),
        call_ensures(ProcmonMonitor::finish_stop, (third, result), ()),
        *last == *final(third),
        call_ensures(ProcmonMonitor::get_changed_files, (last,), files),
        call_ensures(ProcmonMonitor::get_changed_registry_keys, (last,), keys),
    ensures
        stopping,
        files matches Ok(shown) && *shown == result.files,
        keys matches Some(shown) && *shown == result.registry_keys,
        last.options == old(first).options,
        last.track_options == old(first).track_options,
{
}

/// The monitor is of the kind that the options name, and only the one that records
/// follows the registry.
pub proof fn the_options_name_the_monitor(
    options: MonitorOptions,
    track_options: TrackOptions,
    r: Result<AnyMonitor, MonitorError>,
)
    requires
        call_ensures(new_boxed, (options, track_options), r),
    ensures
        r matches Ok(monitor) ==> {
            &&& monitor is Usn <==> options.method == MonitorMethod::Usn
            &&& monitor is WinApi <==> options.method == MonitorMethod::WinApi
            &&& monitor is Procmon <==> options.method == MonitorMethod::Procmon
            &&& match monitor {
                AnyMonitor::Usn(m) => m.options == options && m.initial_usn is None,
                AnyMonitor::WinApi(m) => m.options == options && m.state is NotStarted,
                AnyMonitor::Procmon(m) => m.options == options && m.track_options == track_options
                    && m.state is NotStarted,
            }
        },
        options.method == MonitorMethod::Procmon ==> r is Ok,
{
}

/// A session notes that the recording ended, that it was seen to run, and that it
/// was stopped, each when it happens and for good. It is stopped when the call that
/// stops it has ended, or when a stop is requested after the recording has ended;
/// before that, a request leads to the call.
pub proof fn a_session_notes_what_happens(
    session: &mut RecordingSession,
    event: SessionEvent,
    r: SessionAction,
)
    requires
        call_ensures(RecordingSession::step, (session, event), r),
    ensures
        final(session).record_ended <==> old(session).record_ended || event
            == SessionEvent::RecordEnded,
        final(session).started <==> old(session).started || event == (SessionEvent::WaitEnded {
            success: true,
        }),
        final(session).stopped <==> old(session).stopped || event == SessionEvent::TerminateEnded
            || (event == SessionEvent::StopRequested && old(session).record_ended),
        r == SessionAction::SignalStarted <==> event == (SessionEvent::WaitEnded { success: true }),
        r == SessionAction::Fail <==> event == (SessionEvent::WaitEnded { success: false }),
        r == SessionAction::Terminate <==> event == SessionEvent::StopRequested && !old(
            session,
        ).record_ended,
{
}

/// A recording is complete exactly if it was seen to run, was stopped and has ended.
pub proof fn a_complete_recording_ran_and_was_stopped(session: &RecordingSession, r: bool)
    requires
        call_ensures(RecordingSession::is_complete, (session,), r),
    ensures
        r <==> session.record_ended && session.started && session.stopped,
{
}

/// An operation of the system is under way as long as the system notes so.
pub proof fn operations_are_under_way_as_noted(internal: usize, r: bool)
    requires
        call_ensures(is_completed, (internal,), r),
    ensures
        r <==> internal != 0x103,
{
}

/// The outcome of an operation that has come to an end is asked for once: an answer
/// that it is still incomplete leaves it under way, and any other answer is its
/// outcome from then on.
pub proof fn an_operation_has_one_outcome(
    future: &mut OverlappedFuture,
    result: Result<(), i32>,
    bytes_transferred: u32,
    told: OverlappedPoll,
    later: &OverlappedFuture,
    internal: usize,
    polled: OverlappedPoll,
    bytes: Option<u32>,
)
    requires
        old(future).status == OverlappedStatus::Pending,
        call_ensures(OverlappedFuture::accept, (future, result, bytes_transferred), told),
        *later == *final(future),
        call_ensures(OverlappedFuture::poll, (later, internal), polled),
        call_ensures(OverlappedFuture::bytes_transferred, (later,), bytes),
    ensures
        match result {
            Ok(_) => {
                &&& told == OverlappedPoll::Ready(Ok(bytes_transferred))
                &&& polled == told
                &&& bytes == Some(bytes_transferred)
            },
            Err(code) => if code == -2147023900i32 {
                &&& told == OverlappedPoll::Pending
                &&& internal != 0x103 ==> polled == OverlappedPoll::AskForOutcome
                &&& internal == 0x103 ==> polled == OverlappedPoll::Pending
                &&& bytes is None
            } else {
                &&& told == OverlappedPoll::Ready(Err(code))
                &&& polled == told
                &&& bytes == Some(bytes_transferred)
            },
        },
{
}

/// Once known, an outcome does not change.
pub proof fn an_outcome_does_not_change(
    future: &mut OverlappedFuture,
    result: Result<(), i32>,
    bytes_transferred: u32,
    told: OverlappedPoll,
)
    requires
        old(future).status != OverlappedStatus::Pending,
        call_ensures(OverlappedFuture::accept, (future, result, bytes_transferred), told),
    ensures
        final(future).status == old(future).status,
{
}

} // verus!
