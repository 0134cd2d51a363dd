//! What the notifications of a watched folder tell, and what is asked for.

use vstd::prelude::*;

use crate::changes::gathered_is_the_union_of_sightings;
use crate::item::{untouched, ItemAction, ItemMetadata};
use crate::laws::effects::notes;
use crate::laws::layout::{
    lemma_capacities, lemma_field_is_read, lemma_number_bytes, lemma_signed_bytes,
    lemma_signed_field_is_read, lemma_text_is_read, number_bytes, signed_bytes, text_bytes,
};
use crate::laws::journal::in_a_row;
use crate::laws::recording::asks_for;
use crate::monitor::winapi::{
    a_watching_gathers_its_notifications, after_notifications, entry_length, first_notification,
    info_of, notification_views, notifications_in, reported, sightings, FileNotification,
    FileNotifyInformation, NotificationError, NotificationModel, WatchError, WinApi, WinApiMonitor,
};
use crate::options::{wanted, MonitorOptions};

verus! {

/// The action of a notification tells of the change `action`.
pub open spec fn tells(number: u32, action: ItemAction) -> bool {
    match action {
        ItemAction::Create => number == 1,
        ItemAction::Delete => number == 2,
        ItemAction::Modify => number == 3,
        ItemAction::Rename => number == 5,
    }
}

/// A change is noted of a notification exactly if its action tells of it and the
/// options ask for it.
pub proof fn actions_tell_of_changes(
    options: &MonitorOptions,
    number: u32,
    r: ItemMetadata,
    action: ItemAction,
)
    requires
        call_ensures(WinApiMonitor::get_meta, (options, number), r),
    ensures
        notes(r, action) <==> tells(number, action) && asks_for(*options, action),
{
}

/// The system is asked for new files exactly if they are to be tracked, for names
/// exactly if new, lost or renamed files are, for writes and sizes exactly if
/// contents are, and for nothing else.
pub proof fn the_system_is_asked_for_what_is_tracked(monitor: &WinApiMonitor, r: u32)
    requires
        call_ensures(WinApiMonitor::notify_change_mask, (monitor,), r),
    ensures
        r & 0x40 != 0 <==> monitor.options.creation,
        r & 1 != 0 <==> monitor.options.creation || monitor.options.deletion
            || monitor.options.renaming,
        r & 2 != 0 <==> monitor.options.creation || monitor.options.deletion
            || monitor.options.renaming,
        r & 0x10 != 0 <==> monitor.options.modification,
        r & 8 != 0 <==> monitor.options.modification,
        r & !0x5bu32 == 0,
{
    let creation: u32 = if monitor.options.creation {
        0x40
    } else {
        0
    };
    let names: u32 = if monitor.options.creation || monitor.options.deletion
        || monitor.options.renaming {
        3
    } else {
        0
    };
    let writes: u32 = if monitor.options.modification {
        0x18
    } else {
        0
    };
    assert(1u32 | 2u32 == 3u32) by (bit_vector);
    assert(0x10u32 | 8u32 == 0x18u32) by (bit_vector);
    assert(r == creation | names | writes);
    assert({
        &&& r & 0x40 != 0 <==> creation == 0x40
        &&& r & 1 != 0 <==> names == 3
        &&& r & 2 != 0 <==> names == 3
        &&& r & 0x10 != 0 <==> writes == 0x18
        &&& r & 8 != 0 <==> writes == 0x18
        &&& r & !0x5bu32 == 0
    }) by (bit_vector)
        requires
            creation == 0 || creation == 0x40,
            names == 0 || names == 3,
            writes == 0 || writes == 0x18,
            r == creation | names | writes,
    ;
}

/// The fixed part of a notification, as Windows lays it out.
pub open spec fn info_bytes(info: FileNotifyInformation) -> Seq<u8> {
    number_bytes(info.next_entry_offset as nat, 4) + number_bytes(info.action as nat, 4)
        + signed_bytes(info.creation_time) + signed_bytes(info.last_modification_time)
        + signed_bytes(info.last_change_time) + signed_bytes(info.last_access_time)
        + signed_bytes(info.allocated_length) + signed_bytes(info.file_size)
        + number_bytes(info.file_attributes as nat, 4)
        + number_bytes(info.reparse_point_tag as nat, 4) + signed_bytes(info.file_id)
        + signed_bytes(info.parent_file_id) + number_bytes(info.file_name_length as nat, 4)
}

/// `bytes` are the notification `notification`: the fixed part, then the name. What
/// follows the name does not count. The last notification of several names no
/// next one, and every other names the one that follows it.
pub open spec fn is_layout(notification: NotificationModel, bytes: Seq<u8>, last: bool) -> bool {
    let info = notification.info;
    let name = notification.filename;
    &&& bytes.len() >= 88
    &&& bytes.len() >= 84 + 2 * name.len()
    &&& bytes.take(84) == info_bytes(info)
    &&& info.file_name_length == 2 * name.len()
    &&& bytes.subrange(84, 84 + 2 * name.len() as int) == text_bytes(name)
    &&& info.next_entry_offset == if last {
        0
    } else {
        bytes.len()
    }
}

/// `pieces` are the notifications `notifications`.
pub open spec fn are_layouts(
    notifications: Seq<NotificationModel>,
    pieces: Seq<Seq<u8>>,
) -> bool {
    &&& notifications.len() == pieces.len()
    &&& forall|i: int|
        0 <= i < pieces.len() ==> is_layout(
            #[trigger] notifications[i],
            pieces[i],
            i == pieces.len() - 1,
        )
}

proof fn lemma_info_is_read(data: Seq<u8>, info: FileNotifyInformation)
    requires
        data.len() >= 84,
        data.take(84) == info_bytes(info),
    ensures
        info_of(data) == info,
{
    lemma_capacities();
    lemma_number_bytes(info.next_entry_offset as nat, 4);
    lemma_number_bytes(info.action as nat, 4);
    lemma_signed_bytes(info.creation_time);
    lemma_signed_bytes(info.last_modification_time);
    lemma_signed_bytes(info.last_change_time);
    lemma_signed_bytes(info.last_access_time);
    lemma_signed_bytes(info.allocated_length);
    lemma_signed_bytes(info.file_size);
    lemma_number_bytes(info.file_attributes as nat, 4);
    lemma_number_bytes(info.reparse_point_tag as nat, 4);
    lemma_signed_bytes(info.file_id);
    lemma_signed_bytes(info.parent_file_id);
    lemma_number_bytes(info.file_name_length as nat, 4);
    let all = info_bytes(info);
    assert forall|off: int, end: int| 0 <= off <= end <= 84 implies #[trigger] data.subrange(off, end)
        == all.subrange(off, end) by {
        assert(data.subrange(off, end) =~= data.take(84).subrange(off, end));
    }
    assert(data.subrange(0, 4) =~= number_bytes(info.next_entry_offset as nat, 4));
    lemma_field_is_read(data, 0, info.next_entry_offset as nat, 4);
    assert(data.subrange(4, 8) =~= number_bytes(info.action as nat, 4));
    lemma_field_is_read(data, 4, info.action as nat, 4);
    assert(data.subrange(8, 16) =~= signed_bytes(info.creation_time));
    lemma_signed_field_is_read(data, 8, info.creation_time);
    assert(data.subrange(16, 24) =~= signed_bytes(info.last_modification_time));
    lemma_signed_field_is_read(data, 16, info.last_modification_time);
    assert(data.subrange(24, 32) =~= signed_bytes(info.last_change_time));
    lemma_signed_field_is_read(data, 24, info.last_change_time);
    assert(data.subrange(32, 40) =~= signed_bytes(info.last_access_time));
    lemma_signed_field_is_read(data, 32, info.last_access_time);
    assert(data.subrange(40, 48) =~= signed_bytes(info.allocated_length));
    lemma_signed_field_is_read(data, 40, info.allocated_length);
    assert(data.subrange(48, 56) =~= signed_bytes(info.file_size));
    lemma_signed_field_is_read(data, 48, info.file_size);
    assert(data.subrange(56, 60) =~= number_bytes(info.file_attributes as nat, 4));
    lemma_field_is_read(data, 56, info.file_attributes as nat, 4);
    assert(data.subrange(60, 64) =~= number_bytes(info.reparse_point_tag as nat, 4));
    lemma_field_is_read(data, 60, info.reparse_point_tag as nat, 4);
    assert(data.subrange(64, 72) =~= signed_bytes(info.file_id));
    lemma_signed_field_is_read(data, 64, info.file_id);
    assert(data.subrange(72, 80) =~= signed_bytes(info.parent_file_id));
    lemma_signed_field_is_read(data, 72, info.parent_file_id);
    assert(data.subrange(80, 84) =~= number_bytes(info.file_name_length as nat, 4));
    lemma_field_is_read(data, 80, info.file_name_length as nat, 4);
}

proof fn lemma_notification_is_read(
    data: Seq<u8>,
    notification: NotificationModel,
    bytes: Seq<u8>,
    last: bool,
)
    requires
        is_layout(notification, bytes, last),
        data.len() >= bytes.len(),
        data.take(bytes.len() as int) == bytes,
        last ==> data.len() == bytes.len(),
    ensures
        first_notification(data) == Ok::<NotificationModel, NotificationError>(notification),
        entry_length(data) == bytes.len(),
{
    let name = notification.filename;
    assert(data.take(84) =~= bytes.take(84));
    lemma_info_is_read(data, notification.info);
    lemma_text_is_read(name);
    assert(data.subrange(84, 84 + 2 * name.len() as int) =~= bytes.subrange(
        84,
        84 + 2 * name.len() as int,
    ));
    assert(name.len() == 0 ==> name =~= Seq::empty());
}

proof fn lemma_notifications_are_read(
    data: Seq<u8>,
    notifications: Seq<NotificationModel>,
    pieces: Seq<Seq<u8>>,
)
    requires
        data == in_a_row(pieces),
        are_layouts(notifications, pieces),
    ensures
        notifications_in(data) == Ok::<Seq<NotificationModel>, NotificationError>(notifications),
    decreases pieces.len(),
{
    if pieces.len() == 0 {
        assert(notifications =~= Seq::empty());
    } else {
        let bytes = pieces[0];
        let rest = pieces.drop_first();
        assert(is_layout(notifications[0], bytes, 0 == pieces.len() - 1));
        assert(data.take(bytes.len() as int) =~= bytes);
        if pieces.len() == 1 {
            assert(in_a_row(rest) =~= Seq::empty());
            assert(data =~= bytes);
        }
        lemma_notification_is_read(data, notifications[0], bytes, pieces.len() == 1);
        assert(data.skip(bytes.len() as int) =~= in_a_row(rest));
        assert forall|i: int| 0 <= i < rest.len() implies is_layout(
            #[trigger] notifications.drop_first()[i],
            rest[i],
            i == rest.len() - 1,
        ) by {
            assert(is_layout(notifications[i + 1], pieces[i + 1], i + 1 == pieces.len() - 1));
        }
        lemma_notifications_are_read(in_a_row(rest), notifications.drop_first(), rest);
        assert(seq![notifications[0]] + notifications.drop_first() =~= notifications);
    }
}

/// Reading undoes laying out: of some notifications in the layout that Windows
/// documents, those notifications are read, with every field as it was written. What
/// lies in the buffer behind the bytes that were returned does not count.
pub proof fn notifications_are_read_as_they_were_written(
    buffer: &[u8],
    bytes_returned: u32,
    notifications: Seq<NotificationModel>,
    pieces: Seq<Seq<u8>>,
    r: Result<Vec<FileNotification>, WatchError>,
)
    requires
        call_ensures(WinApi::read_changes, (buffer, bytes_returned), r),
        are_layouts(notifications, pieces),
        bytes_returned <= buffer@.len(),
        buffer@.take(bytes_returned as int) == in_a_row(pieces),
    ensures
        r matches Ok(read) && notification_views(read@) == notifications,
{
    lemma_notifications_are_read(in_a_row(pieces), notifications, pieces);
}

/// Bytes that the buffer does not hold are refused, and so is what is too short for
/// a notification.
pub proof fn short_buffers_are_refused(
    buffer: &[u8],
    bytes_returned: u32,
    r: Result<Vec<FileNotification>, WatchError>,
)
    requires
        call_ensures(WinApi::read_changes, (buffer, bytes_returned), r),
    ensures
        bytes_returned > buffer@.len() ==> (r matches Err(e) && e == WatchError::TooManyBytes),
        0 < bytes_returned < 88 && bytes_returned <= buffer@.len() ==> (r matches Err(e) && e
            == WatchError::Format(NotificationError::InsufficientData)),
{
}

/// The notification tells of the change `action` to the file `name`, for which the
/// options ask.
pub open spec fn notification_tells(
    options: MonitorOptions,
    notification: NotificationModel,
    name: Seq<u16>,
    action: ItemAction,
) -> bool {
    notification.filename == name && tells(notification.info.action, action) && asks_for(
        options,
        action,
    )
}

proof fn lemma_sightings(
    options: MonitorOptions,
    notifications: Seq<NotificationModel>,
    name: Seq<u16>,
    action: ItemAction,
)
    ensures
        ({
            let seen = sightings(options, notifications);
            &&& (exists|i: int|
                0 <= i < seen.len() && (#[trigger] seen[i]).0 == name && notes(seen[i].1, action))
                <==> exists|j: int|
                0 <= j < notifications.len() && notification_tells(
                    options,
                    #[trigger] notifications[j],
                    name,
                    action,
                )
            &&& forall|i: int| 0 <= i < seen.len() ==> (#[trigger] seen[i]).1 != untouched()
        }),
    decreases notifications.len(),
{
    if notifications.len() > 0 {
        let front = notifications.drop_last();
        lemma_sightings(options, front, name, action);
        let seen = sightings(options, notifications);
        let before = sightings(options, front);
        let last = notifications.last();
        let at = notifications.len() - 1;
        assert(notifications[at] == last);
        assert(forall|j: int| 0 <= j < front.len() ==> #[trigger] front[j] == notifications[j]);
        assert(forall|i: int| 0 <= i < before.len() ==> #[trigger] seen[i] == before[i]);
        let meta = wanted(options, reported(last.info.action));
        assert(notes(meta, action) ==> meta != untouched());
        if exists|j: int|
            0 <= j < notifications.len() && notification_tells(
                options,
                #[trigger] notifications[j],
                name,
                action,
            ) {
            let j = choose|j: int|
                0 <= j < notifications.len() && notification_tells(
                    options,
                    #[trigger] notifications[j],
                    name,
                    action,
                );
            if j < at {
                assert(notification_tells(options, front[j], name, action));
                let i = choose|i: int|
                    0 <= i < before.len() && (#[trigger] before[i]).0 == name && notes(
                        before[i].1,
                        action,
                    );
                assert(seen[i] == before[i]);
            } else {
                assert(seen[before.len() as int] == (last.filename, meta));
            }
        }
        if exists|i: int|
            0 <= i < seen.len() && (#[trigger] seen[i]).0 == name && notes(seen[i].1, action) {
            let i = choose|i: int|
                0 <= i < seen.len() && (#[trigger] seen[i]).0 == name && notes(seen[i].1, action);
            if i < before.len() {
                assert(before[i].0 == name && notes(before[i].1, action));
                let j = choose|j: int|
                    0 <= j < front.len() && notification_tells(
                        options,
                        #[trigger] front[j],
                        name,
                        action,
                    );
                assert(notification_tells(options, notifications[j], name, action));
            } else {
                assert(notification_tells(options, notifications[at], name, action));
            }
        }
    }
}

pub(crate) proof fn lemma_more_notifications(
    options: MonitorOptions,
    changes: Map<Seq<u16>, ItemMetadata>,
    notifications: Seq<NotificationModel>,
    name: Seq<u16>,
    action: ItemAction,
)
    ensures
        ({
            let found = after_notifications(options, changes, notifications);
            found.dom().contains(name) && notes(found[name], action) <==> (changes.dom().contains(
                name,
            ) && notes(changes[name], action)) || exists|j: int|
                0 <= j < notifications.len() && notification_tells(
                    options,
                    #[trigger] notifications[j],
                    name,
                    action,
                )
        }),
    decreases notifications.len(),
{
    if notifications.len() > 0 {
        let front = notifications.drop_last();
        lemma_more_notifications(options, changes, front, name, action);
        let at = notifications.len() - 1;
        assert(notifications[at] == notifications.last());
        assert(forall|j: int| 0 <= j < front.len() ==> #[trigger] front[j] == notifications[j]);
        let meta = wanted(options, reported(notifications.last().info.action));
        assert(notes(meta, action) ==> meta != untouched());
        if exists|j: int|
            0 <= j < front.len() && notification_tells(options, #[trigger] front[j], name, action) {
            let j = choose|j: int|
                0 <= j < front.len() && notification_tells(
                    options,
                    #[trigger] front[j],
                    name,
                    action,
                );
            assert(notification_tells(options, notifications[j], name, action));
        }
        if exists|j: int|
            0 <= j < notifications.len() && notification_tells(
                options,
                #[trigger] notifications[j],
                name,
                action,
            ) {
            let j = choose|j: int|
                0 <= j < notifications.len() && notification_tells(
                    options,
                    #[trigger] notifications[j],
                    name,
                    action,
                );
            if j < at {
                assert(notification_tells(options, front[j], name, action));
            }
        }
    }
}

/// A watching notes a change of a file exactly if one of its notifications tells of
/// that change and it is asked for, and it notes no file without a change.
pub proof fn a_watching_notes_what_its_notifications_tell(
    options: MonitorOptions,
    notifications: Seq<NotificationModel>,
    name: Seq<u16>,
    action: ItemAction,
)
    ensures
        ({
            let found = after_notifications(options, Map::empty(), notifications);
            &&& found.dom().contains(name) && notes(found[name], action) <==> exists|j: int|
                0 <= j < notifications.len() && notification_tells(
                    options,
                    #[trigger] notifications[j],
                    name,
                    action,
                )
            &&& found.dom().contains(name) ==> notes(found[name], ItemAction::Create) || notes(
                found[name],
                ItemAction::Modify,
            ) || notes(found[name], ItemAction::Delete) || notes(found[name], ItemAction::Rename)
        }),
{
    let seen = sightings(options, notifications);
    a_watching_gathers_its_notifications(options, notifications, Seq::empty());
    gathered_is_the_union_of_sightings(seen, name);
    lemma_sightings(options, notifications, name, action);
    if after_notifications(options, Map::empty(), notifications).dom().contains(name) {
        let i = choose|i: int| 0 <= i < seen.len() && (#[trigger] seen[i]).0 == name;
        assert(seen[i].1 != untouched());
    }
}

/// A notification is refused if the next one would lie beyond the data, if its name
/// reaches beyond it, or if its name holds half a unit.
pub proof fn malformed_notifications_are_refused(
    data: &[u8],
    info: FileNotifyInformation,
    r: Result<Vec<FileNotification>, NotificationError>,
)
    requires
        call_ensures(WinApi::parse_records, (data,), r),
        data@.len() >= 88,
        data@.take(84) == info_bytes(info),
    ensures
        ({
            let length = if info.next_entry_offset != 0 {
                info.next_entry_offset as int
            } else {
                data@.len() as int
            };
            &&& length > data@.len() ==> (r matches Err(e) && e
                == NotificationError::NextEntryExceedsData)
            &&& length <= data@.len() && info.file_name_length > 0 && 84 + info.file_name_length
                > length ==> (r matches Err(e) && e == NotificationError::NameExceedsEntry)
            &&& length <= data@.len() && 84 + info.file_name_length <= length
                && info.file_name_length % 2 == 1 ==> (r matches Err(e) && e
                == NotificationError::OddNameLength)
        }),
{
    lemma_info_is_read(data@, info);
}

/// What the system sent is read from the bytes that it sent and from no others.
pub proof fn notifications_are_read_from_what_was_sent(
    buffer: &[u8],
    bytes_returned: u32,
    sent: &[u8],
    r: Result<Vec<FileNotification>, WatchError>,
    s: Result<Vec<FileNotification>, NotificationError>,
)
    requires
        call_ensures(WinApi::read_changes, (buffer, bytes_returned), r),
        call_ensures(WinApi::parse_records, (sent,), s),
        bytes_returned <= buffer@.len(),
        sent@ == buffer@.take(bytes_returned as int),
    ensures
        match s {
            Ok(notifications) => r matches Ok(read) && notification_views(read@)
                == notification_views(notifications@),
            Err(e) => r matches Err(f) && f == WatchError::Format(e),
        },
{
}

} // verus!
