//! Watching a folder: what to ask the system for, and what its notifications
//! say of the files below the folder.

use vstd::prelude::*;
use vstd::slice::slice_subrange;

use crate::bytes::{field, le_units, read_i64, read_u32, read_units, signed_field};
use crate::changes::{
    gathered, keyed, recorded, recorded_names_are_kept, regroup, sighted, with_names, ChangeMap,
    ItemMap,
};
use crate::item::{untouched, ItemMetadata};
use crate::options::{wanted, MonitorOptions, TrackOptions};
use crate::path::{copy_units, joined, path_key, ComponentModel, WinPath};
use crate::text::{is_first_nul, nul_terminated, wide_c_string, ContainsNul};

verus! {

/// Size of the fixed part of a notification, with its padding.
pub const NOTIFICATION_SIZE: usize = 88;

/// Where the name starts in a notification.
pub const NAME_OFFSET: usize = 84;

/// Size of the buffer for the notifications.
pub const WATCH_BUFFER_SIZE: usize = 0x10000;

pub const FILE_ACTION_ADDED: u32 = 1;

pub const FILE_ACTION_REMOVED: u32 = 2;

pub const FILE_ACTION_MODIFIED: u32 = 3;

pub const FILE_ACTION_RENAMED_NEW_NAME: u32 = 5;

pub const FILE_NOTIFY_CHANGE_FILE_NAME: u32 = 0x1;

pub const FILE_NOTIFY_CHANGE_DIR_NAME: u32 = 0x2;

pub const FILE_NOTIFY_CHANGE_SIZE: u32 = 0x8;

pub const FILE_NOTIFY_CHANGE_LAST_WRITE: u32 = 0x10;

pub const FILE_NOTIFY_CHANGE_CREATION: u32 = 0x40;

/// The result of an operation that was called off: `0x800703e3`.
pub const OPERATION_ABORTED: i32 = -2147023901;

/// The fixed part of a notification.
#[derive(Debug, Clone, Copy, PartialEq, Eq, Structural)]
pub struct FileNotifyInformation {
    pub next_entry_offset: u32,
    pub action: u32,
    pub creation_time: i64,
    pub last_modification_time: i64,
    pub last_change_time: i64,
    pub last_access_time: i64,
    pub allocated_length: i64,
    pub file_size: i64,
    pub file_attributes: u32,
    pub reparse_point_tag: u32,
    pub file_id: i64,
    pub parent_file_id: i64,
    pub file_name_length: u32,
}

/// One notification.
#[derive(Debug)]
pub struct FileNotification {
    pub info: FileNotifyInformation,
    pub filename: Vec<u16>,
}

pub struct NotificationModel {
    pub info: FileNotifyInformation,
    pub filename: Seq<u16>,
}

impl View for FileNotification {
    type V = NotificationModel;

    open spec fn view(&self) -> NotificationModel {
        NotificationModel { info: self.info, filename: self.filename@ }
    }
}

/// The notifications behind their views.
pub open spec fn notification_views(notifications: Seq<FileNotification>) -> Seq<
    NotificationModel,
> {
    notifications.map_values(|n: FileNotification| n@)
}

/// Why the bytes are no list of notifications.
#[derive(Debug, Clone, Copy, PartialEq, Eq, Structural)]
pub enum NotificationError {
    /// What is left is too short for a notification.
    InsufficientData,
    /// The next notification would start behind the end.
    NextEntryExceedsData,
    /// The name does not fit in the notification.
    NameExceedsEntry,
    /// The name holds half a unit.
    OddNameLength,
}

/// The fixed part of the notification that `data` starts with.
pub open spec fn info_of(data: Seq<u8>) -> FileNotifyInformation {
    FileNotifyInformation {
        next_entry_offset: field(data, 0, 4) as u32,
        action: field(data, 4, 4) as u32,
        creation_time: signed_field(data, 8) as i64,
        last_modification_time: signed_field(data, 16) as i64,
        last_change_time: signed_field(data, 24) as i64,
        last_access_time: signed_field(data, 32) as i64,
        allocated_length: signed_field(data, 40) as i64,
        file_size: signed_field(data, 48) as i64,
        file_attributes: field(data, 56, 4) as u32,
        reparse_point_tag: field(data, 60, 4) as u32,
        file_id: signed_field(data, 64) as i64,
        parent_file_id: signed_field(data, 72) as i64,
        file_name_length: field(data, 80, 4) as u32,
    }
}

/// The length of the notification that `data` starts with: up to the next one,
/// or up to the end.
pub open spec fn entry_length(data: Seq<u8>) -> int {
    if info_of(data).next_entry_offset != 0 {
        info_of(data).next_entry_offset as int
    } else {
        data.len() as int
    }
}

/// The notification that `data` starts with, or what is wrong with it.
pub open spec fn first_notification(data: Seq<u8>) -> Result<NotificationModel, NotificationError> {
    let info = info_of(data);
    let length = entry_length(data);
    if data.len() < NOTIFICATION_SIZE {
        Err(NotificationError::InsufficientData)
    } else if data.len() < length {
        Err(NotificationError::NextEntryExceedsData)
    } else if info.file_name_length == 0 {
        Ok(NotificationModel { info, filename: Seq::empty() })
    } else if NAME_OFFSET + info.file_name_length > length {
        Err(NotificationError::NameExceedsEntry)
    } else if info.file_name_length % 2 != 0 {
        Err(NotificationError::OddNameLength)
    } else {
        Ok(
            NotificationModel {
                info,
                filename: le_units(
                    data.subrange(NAME_OFFSET as int, NAME_OFFSET + info.file_name_length),
                ),
            },
        )
    }
}

/// The notifications that `data` holds, one after the other.
pub open spec fn notifications_in(data: Seq<u8>) -> Result<
    Seq<NotificationModel>,
    NotificationError,
>
    decreases data.len(),
{
    if data.len() == 0 {
        Ok(Seq::empty())
    } else {
        match first_notification(data) {
            Err(e) => Err(e),
            Ok(first) => {
                let length = entry_length(data);
                if 0 < length <= data.len() {
                    match notifications_in(data.skip(length)) {
                        Err(e) => Err(e),
                        Ok(rest) => Ok(seq![first] + rest),
                    }
                } else {
                    Err(NotificationError::NextEntryExceedsData)
                }
            },
        }
    }
}

/// What can go wrong while a folder is watched.
#[derive(Debug, Clone, Copy, PartialEq, Eq, Structural)]
pub enum WatchError {
    /// The system claims to have sent more than the buffer holds.
    TooManyBytes,
    /// The system sent what is no list of notifications.
    Format(NotificationError),
    /// The system answered with an error.
    System { code: i32 },
}

/// What the first `returned` bytes of `buffer` say.
pub open spec fn received_changes(buffer: Seq<u8>, returned: u32) -> Result<
    Seq<NotificationModel>,
    WatchError,
> {
    if returned > buffer.len() {
        Err(WatchError::TooManyBytes)
    } else {
        match notifications_in(buffer.take(returned as int)) {
            Ok(notifications) => Ok(notifications),
            Err(e) => Err(WatchError::Format(e)),
        }
    }
}

/// A folder, by the name under which the system opens it.
#[derive(Debug)]
pub struct WinApi {
    pub folder: Vec<u16>,
}

fn read_info(data: &[u8]) -> (r: FileNotifyInformation)
    requires
        data@.len() >= NOTIFICATION_SIZE,
    ensures
        r == info_of(data@),
{
    FileNotifyInformation {
        next_entry_offset: read_u32(data, 0),
        action: read_u32(data, 4),
        creation_time: read_i64(data, 8),
        last_modification_time: read_i64(data, 16),
        last_change_time: read_i64(data, 24),
        last_access_time: read_i64(data, 32),
        allocated_length: read_i64(data, 40),
        file_size: read_i64(data, 48),
        file_attributes: read_u32(data, 56),
        reparse_point_tag: read_u32(data, 60),
        file_id: read_i64(data, 64),
        parent_file_id: read_i64(data, 72),
        file_name_length: read_u32(data, 80),
    }
}

/// Reads the notification that `data` starts with; also gives its length.
fn read_notification(data: &[u8]) -> (r: Result<(usize, FileNotification), NotificationError>)
    ensures
        match r {
            Ok((length, notification)) => first_notification(data@) == Ok::<
                NotificationModel,
                NotificationError,
            >(notification@) && length == entry_length(data@) && length <= data@.len(),
            Err(e) => first_notification(data@) == Err::<NotificationModel, NotificationError>(e),
        },
{
    assert(data@.len() == data.len());
    if data.len() < NOTIFICATION_SIZE {
        return Err(NotificationError::InsufficientData);
    }
    let info: FileNotifyInformation = read_info(data);
    let length: usize = if info.next_entry_offset != 0 {
        if data.len() < info.next_entry_offset as usize {
            return Err(NotificationError::NextEntryExceedsData);
        }
        info.next_entry_offset as usize
    } else {
        data.len()
    };
    let filename: Vec<u16> = if info.file_name_length > 0 {
        if NAME_OFFSET as u64 + info.file_name_length as u64 > length as u64 {
            return Err(NotificationError::NameExceedsEntry);
        }
        if info.file_name_length % 2 != 0 {
            return Err(NotificationError::OddNameLength);
        }
        read_units(data, NAME_OFFSET, info.file_name_length as usize)
    } else {
        let empty: Vec<u16> = Vec::new();
        assert(empty@ =~= Seq::<u16>::empty());
        empty
    };
    Ok((length, FileNotification { info, filename }))
}

impl WinApi {
    /// The folder `path`.
    pub fn new(path: Vec<u16>) -> (r: Result<WinApi, ContainsNul>)
        ensures
            match r {
                Ok(api) => api.folder@ == nul_terminated(path@) && forall|at: int|
                    #[trigger] is_first_nul(path@, at) ==> at == path@.len() - 1,
                Err(e) => is_first_nul(path@, e.position as int) && e.position < path@.len() - 1,
            },
    {
        match wide_c_string(path) {
            Ok(folder) => Ok(WinApi { folder }),
            Err(e) => Err(e),
        }
    }

    /// Splits what the system sent into notifications.
    pub fn parse_records(data: &[u8]) -> (r: Result<Vec<FileNotification>, NotificationError>)
        ensures
            match r {
                Ok(notifications) => notifications_in(data@) == Ok::<
                    Seq<NotificationModel>,
                    NotificationError,
                >(notification_views(notifications@)),
                Err(e) => notifications_in(data@) == Err::<
                    Seq<NotificationModel>,
                    NotificationError,
                >(e),
            },
    {
        assert(data@.len() == data.len());
        let mut records: Vec<FileNotification> = Vec::new();
        let mut offset: usize = 0;
        assert(data@.skip(0) =~= data@);
        assert(notification_views(records@) =~= Seq::<NotificationModel>::empty());
        proof {
            if let Ok(rest) = notifications_in(data@) {
                assert(Seq::<NotificationModel>::empty() + rest =~= rest);
            }
        }
        while offset < data.len()
            invariant
                offset <= data@.len(),
                data@.len() <= usize::MAX,
                notifications_in(data@) == (match notifications_in(data@.skip(offset as int)) {
                    Ok(rest) => Ok(notification_views(records@) + rest),
                    Err(e) => Err(e),
                }),
            decreases data@.len() - offset,
        {
            let left: &[u8] = slice_subrange(data, offset, data.len());
            assert(left@ =~= data@.skip(offset as int));
            match read_notification(left) {
                Err(e) => {
                    return Err(e);
                },
                Ok((length, record)) => {
                    let ghost before = records@;
                    let ghost model = record@;
                    records.push(record);
                    proof {
                        assert(length > 0);
                        assert(left@.skip(length as int) =~= data@.skip(offset + length));
                        assert(notification_views(records@) =~= notification_views(before)
                            + seq![model]);
                        if let Ok(rest) = notifications_in(data@.skip(offset + length)) {
                            assert(notification_views(before) + (seq![model] + rest)
                                =~= notification_views(records@) + rest);
                        }
                    }
                    offset = offset + length;
                },
            }
        }
        assert(notification_views(records@) + Seq::<NotificationModel>::empty()
            =~= notification_views(records@));
        Ok(records)
    }

    /// Takes what the system sent apart: the first `bytes_returned` bytes of
    /// `buffer`.
    pub fn read_changes(buffer: &[u8], bytes_returned: u32) -> (r: Result<
        Vec<FileNotification>,
        WatchError,
    >)
        ensures
            match r {
                Ok(notifications) => received_changes(buffer@, bytes_returned) == Ok::<
                    Seq<NotificationModel>,
                    WatchError,
                >(notification_views(notifications@)),
                Err(e) => received_changes(buffer@, bytes_returned) == Err::<
                    Seq<NotificationModel>,
                    WatchError,
                >(e),
            },
    {
        assert(buffer@.len() == buffer.len());
        if bytes_returned as usize > buffer.len() {
            return Err(WatchError::TooManyBytes);
        }
        let data: &[u8] = slice_subrange(buffer, 0, bytes_returned as usize);
        assert(data@ =~= buffer@.take(bytes_returned as int));
        match Self::parse_records(data) {
            Ok(notifications) => Ok(notifications),
            Err(e) => Err(WatchError::Format(e)),
        }
    }
}

/// What an action tells of the file.
pub open spec fn reported(action: u32) -> ItemMetadata {
    ItemMetadata {
        created: action == FILE_ACTION_ADDED,
        deleted: action == FILE_ACTION_REMOVED,
        modified: action == FILE_ACTION_MODIFIED,
        renamed: action == FILE_ACTION_RENAMED_NEW_NAME,
    }
}

/// `changes` after one more notification.
pub open spec fn after_notification(
    options: MonitorOptions,
    changes: Map<Seq<u16>, ItemMetadata>,
    notification: NotificationModel,
) -> Map<Seq<u16>, ItemMetadata> {
    let meta = wanted(options, reported(notification.info.action));
    if meta == untouched() {
        changes
    } else {
        sighted(changes, notification.filename, meta)
    }
}

/// `changes` after some more notifications.
pub open spec fn after_notifications(
    options: MonitorOptions,
    changes: Map<Seq<u16>, ItemMetadata>,
    notifications: Seq<NotificationModel>,
) -> Map<Seq<u16>, ItemMetadata>
    decreases notifications.len(),
{
    if notifications.len() == 0 {
        changes
    } else {
        after_notification(
            options,
            after_notifications(options, changes, notifications.drop_last()),
            notifications.last(),
        )
    }
}

/// `paths` are what `names` stand for below the folder `folder`.
pub open spec fn are_below(
    paths: Seq<WinPath>,
    folder: Seq<ComponentModel>,
    names: Seq<WinPath>,
) -> bool {
    &&& paths.len() == names.len()
    &&& forall|k: int| 0 <= k < paths.len() ==> (#[trigger] paths[k])@ == joined(folder, names[k]@)
}

/// What was seen of files by their names, under the paths that the names stand
/// for below the folder `folder`.
pub open spec fn found_below(
    folder: Seq<ComponentModel>,
    entries: Seq<(Vec<u16>, ItemMetadata)>,
    names: Seq<WinPath>,
) -> Seq<(Seq<ComponentModel>, ItemMetadata)> {
    Seq::new(names.len(), |i: int| (path_key(joined(folder, names[i]@)), entries[i].1))
}

/// What came of waiting for notifications.
pub enum WatchEvent<'a> {
    /// The first `bytes_returned` bytes of the buffer are notifications.
    Filled { buffer: &'a [u8], bytes_returned: u32 },
    /// The system answered with an error.
    Failed { code: i32 },
}

/// What to do next while a folder is watched.
#[derive(Debug, Clone, Copy, PartialEq, Eq, Structural)]
pub enum WatchStep {
    /// Wait for more notifications.
    Wait,
    /// The watching was called off.
    Finish,
    /// The watching failed.
    Fail(WatchError),
}

/// The changes that were seen of the files below a folder, each file by its
/// name relative to the folder.
pub struct Watch {
    pub options: MonitorOptions,
    pub changes: ChangeMap<Vec<u16>>,
}

impl Watch {
    /// Starts to watch, with nothing seen yet.
    pub fn new(options: MonitorOptions) -> (r: Watch)
        ensures
            r.options == options,
            r.changes@ == Map::<Seq<u16>, ItemMetadata>::empty(),
    {
        Watch { options, changes: ItemMap::new() }
    }

    /// Notes what `notifications` tell.
    fn note(&mut self, notifications: Vec<FileNotification>)
        ensures
            final(self).options == old(self).options,
            final(self).changes@ == after_notifications(
                old(self).options,
                old(self).changes@,
                notification_views(notifications@),
            ),
    {
        let ghost options = self.options;
        let ghost before = self.changes@;
        let ghost views = notification_views(notifications@);
        assert(views.take(0) =~= Seq::<NotificationModel>::empty());
        for notification in it: notifications
            invariant
                it.seq() == notifications@,
                views == notification_views(notifications@),
                self.options == options,
                self.changes@ == after_notifications(options, before, views.take(it.index())),
        {
            proof {
                let index = it.index();
                assert(views.take(index + 1).drop_last() =~= views.take(index));
                assert(views.take(index + 1).last() == notification@);
            }
            let meta: ItemMetadata = WinApiMonitor::get_meta(
                &self.options,
                notification.info.action,
            );
            if !meta.is_empty() {
                self.changes.record(notification.filename, &meta);
            }
        }
        assert(views.take(views.len() as int) =~= views);
    }

    /// The changes by path. For each of the names, in the order in which they
    /// are listed, `names` holds the path that it stands for, relative to the
    /// folder. What was seen of one path under several names is joined.
    pub fn by_path(&self, names: &Vec<WinPath>) -> (r: ChangeMap<WinPath>)
        requires
            names@.len() == self.changes.listed().len(),
        ensures
            r@ == gathered(found_below(self.options.path.path@, self.changes.listed(), names@)),
            exists|paths: Seq<WinPath>| #[trigger]
                are_below(paths, self.options.path.path@, names@) && r.listed() == recorded(
                    with_names(self.changes.listed(), paths),
                ),
            forall|e: int|
                0 <= e < r.listed().len() ==> exists|k: int|
                    0 <= k < names@.len() && (#[trigger] r.listed()[e]).0@ == joined(
                        self.options.path.path@,
                        (#[trigger] names@[k])@,
                    ),
    {
        let mut paths: Vec<WinPath> = Vec::new();
        for i in 0..names.len()
            invariant
                paths@.len() == i,
                forall|k: int|
                    0 <= k < i ==> (#[trigger] paths@[k])@ == joined(
                        self.options.path.path@,
                        names@[k]@,
                    ),
        {
            paths.push(self.options.path.path.join_path(&names[i]));
        }
        let ghost entries = self.changes.listed();
        let r: ChangeMap<WinPath> = regroup(&self.changes, paths);
        proof {
            assert(are_below(paths@, self.options.path.path@, names@));
            assert(keyed(with_names(entries, paths@)) =~= found_below(
                self.options.path.path@,
                entries,
                names@,
            ));
            assert forall|e: int| 0 <= e < r.listed().len() implies exists|k: int|
                0 <= k < names@.len() && (#[trigger] r.listed()[e]).0@ == joined(
                    self.options.path.path@,
                    (#[trigger] names@[k])@,
                ) by {
                let k = recorded_names_are_kept(with_names(entries, paths@), e);
                assert(paths@[k]@ == joined(self.options.path.path@, names@[k]@));
            }
        }
        r
    }

    /// Takes in what came of waiting for notifications.
    pub fn step(&mut self, event: WatchEvent<'_>) -> (r: WatchStep)
        ensures
            final(self).options == old(self).options,
            match event {
                WatchEvent::Filled { buffer, bytes_returned } => match received_changes(
                    buffer@,
                    bytes_returned,
                ) {
                    Ok(notifications) => r == WatchStep::Wait && final(self).changes@
                        == after_notifications(
                        old(self).options,
                        old(self).changes@,
                        notifications,
                    ),
                    Err(e) => r == WatchStep::Fail(e) && final(self).changes@ == old(self).changes@,
                },
                WatchEvent::Failed { code } => final(self).changes@ == old(self).changes@ && r == (
                if code == OPERATION_ABORTED {
                    WatchStep::Finish
                } else {
                    WatchStep::Fail(WatchError::System { code })
                }),
            },
    {
        match event {
            WatchEvent::Filled { buffer, bytes_returned } => match WinApi::read_changes(
                buffer,
                bytes_returned,
            ) {
                Ok(notifications) => {
                    self.note(notifications);
                    WatchStep::Wait
                },
                Err(e) => WatchStep::Fail(e),
            },
            WatchEvent::Failed { code } => if code == OPERATION_ABORTED {
                WatchStep::Finish
            } else {
                WatchStep::Fail(WatchError::System { code })
            },
        }
    }
}

/// Where a watching monitor stands.
pub enum MonitorState {
    NotStarted,
    Running,
    Stopped(Result<ChangeMap<WinPath>, WatchError>),
}

/// Why the monitor has no changes to show.
#[derive(Debug, Clone, Copy, PartialEq, Eq, Structural)]
pub enum WinApiMonitorError {
    /// The watching failed.
    Failed(WatchError),
    /// The monitor was not stopped.
    NotStopped,
}

/// Finds changed files by the notifications that the system sends between the
/// start and the stop of the monitor.
pub struct WinApiMonitor {
    pub api: WinApi,
    pub state: MonitorState,
    pub options: MonitorOptions,
}

/// What to ask for so that new files are reported.
pub open spec fn creation_bits(options: MonitorOptions) -> u32 {
    if options.creation {
        FILE_NOTIFY_CHANGE_CREATION
    } else {
        0
    }
}

/// What to ask for so that new, lost and renamed files are reported.
pub open spec fn name_bits(options: MonitorOptions) -> u32 {
    if options.creation || options.deletion || options.renaming {
        FILE_NOTIFY_CHANGE_FILE_NAME | FILE_NOTIFY_CHANGE_DIR_NAME
    } else {
        0
    }
}

/// What to ask for so that new contents are reported.
pub open spec fn write_bits(options: MonitorOptions) -> u32 {
    if options.modification {
        FILE_NOTIFY_CHANGE_LAST_WRITE | FILE_NOTIFY_CHANGE_SIZE
    } else {
        0
    }
}

impl WinApiMonitor {
    /// A monitor for the folder of the options. All changes below the folder are
    /// followed, whichever process makes them.
    pub fn new(options: MonitorOptions, _track_options: TrackOptions) -> (r: Result<
        WinApiMonitor,
        ContainsNul,
    >)
        ensures
            match r {
                Ok(monitor) => monitor.api.folder@ == nul_terminated(options.path.text@)
                    && monitor.state is NotStarted && monitor.options == options && forall|at: int|
                    #[trigger] is_first_nul(options.path.text@, at) ==> at == options.path.text@.len() - 1,
                Err(e) => is_first_nul(options.path.text@, e.position as int) && e.position
                    < options.path.text@.len() - 1,
            },
    {
        match WinApi::new(copy_units(&options.path.text)) {
            Ok(api) => Ok(WinApiMonitor { api, state: MonitorState::NotStarted, options }),
            Err(e) => Err(e),
        }
    }

    /// The changes to ask the system for.
    pub fn notify_change_mask(&self) -> (r: u32)
        ensures
            r == creation_bits(self.options) | name_bits(self.options) | write_bits(self.options),
    {
        let creation: u32 = if self.options.creation {
            FILE_NOTIFY_CHANGE_CREATION
        } else {
            0
        };
        let names: u32 = if self.options.creation || self.options.deletion || self.options.renaming {
            FILE_NOTIFY_CHANGE_FILE_NAME | FILE_NOTIFY_CHANGE_DIR_NAME
        } else {
            0
        };
        let writes: u32 = if self.options.modification {
            FILE_NOTIFY_CHANGE_LAST_WRITE | FILE_NOTIFY_CHANGE_SIZE
        } else {
            0
        };
        creation | names | writes
    }

    /// What an action tells of the file, as far as it is to be tracked.
    pub fn get_meta(options: &MonitorOptions, action: u32) -> (r: ItemMetadata)
        ensures
            r == wanted(*options, reported(action)),
    {
        ItemMetadata::default().create(action == FILE_ACTION_ADDED && options.creation).delete(
            action == FILE_ACTION_REMOVED && options.deletion,
        ).modify(action == FILE_ACTION_MODIFIED && options.modification).rename(
            action == FILE_ACTION_RENAMED_NEW_NAME && options.renaming,
        )
    }

    /// Notes that the watching has started.
    pub fn start(&mut self)
        ensures
            *final(self) == (WinApiMonitor { state: MonitorState::Running, ..*old(self) }),
    {
        self.state = MonitorState::Running;
    }

    /// Prepares to stop; tells whether there is a watching to call off.
    pub fn begin_stop(&mut self) -> (r: bool)
        ensures
            r == (old(self).state is Running),
            *final(self) == (if r {
                WinApiMonitor { state: MonitorState::NotStarted, ..*old(self) }
            } else {
                *old(self)
            }),
    {
        if let MonitorState::Running = self.state {
            self.state = MonitorState::NotStarted;
            true
        } else {
            false
        }
    }

    /// Notes what the watching came to.
    pub fn finish_stop(&mut self, result: Result<ChangeMap<WinPath>, WatchError>)
        ensures
            *final(self) == (WinApiMonitor {
                state: MonitorState::Stopped(result),
                ..*old(self)
            }),
    {
        self.state = MonitorState::Stopped(result);
    }

    /// The changed files, once the monitor has been stopped.
    pub fn get_changed_files(&self) -> (r: Result<&ChangeMap<WinPath>, WinApiMonitorError>)
        ensures
            match self.state {
                MonitorState::Stopped(Ok(changes)) => r is Ok && *r->Ok_0 == changes,
                MonitorState::Stopped(Err(e)) => r is Err && r->Err_0
                    == WinApiMonitorError::Failed(e),
                _ => r is Err && r->Err_0 == WinApiMonitorError::NotStopped,
            },
    {
        match &self.state {
            MonitorState::Stopped(Ok(changes)) => Ok(changes),
            MonitorState::Stopped(Err(e)) => Err(WinApiMonitorError::Failed(*e)),
            _ => Err(WinApiMonitorError::NotStopped),
        }
    }
}

/// The system is asked for a kind of notification exactly if a change that it
/// tells of is to be tracked.
pub proof fn what_is_tracked_is_asked_for(options: MonitorOptions)
    ensures
        ({
            let mask = creation_bits(options) | name_bits(options) | write_bits(options);
            let names = options.creation || options.deletion || options.renaming;
            &&& mask & FILE_NOTIFY_CHANGE_CREATION != 0 <==> options.creation
            &&& mask & FILE_NOTIFY_CHANGE_FILE_NAME != 0 <==> names
            &&& mask & FILE_NOTIFY_CHANGE_DIR_NAME != 0 <==> names
            &&& mask & FILE_NOTIFY_CHANGE_LAST_WRITE != 0 <==> options.modification
            &&& mask & FILE_NOTIFY_CHANGE_SIZE != 0 <==> options.modification
        }),
{
    let creation = creation_bits(options);
    let names = name_bits(options);
    let writes = write_bits(options);
    assert(1u32 | 2u32 == 3u32) by (bit_vector);
    assert(0x10u32 | 8u32 == 0x18u32) by (bit_vector);
    let mask = creation | names | writes;
    assert({
        &&& mask & 0x40 != 0 <==> creation == 0x40
        &&& mask & 1 != 0 <==> names == 3
        &&& mask & 2 != 0 <==> names == 3
        &&& mask & 0x10 != 0 <==> writes == 0x18
        &&& mask & 8 != 0 <==> writes == 0x18
    }) by (bit_vector)
        requires
            creation == 0 || creation == 0x40,
            names == 0 || names == 3,
            writes == 0 || writes == 0x18,
            mask == creation | names | writes,
    ;
}

/// The names and changes that `notifications` tell of, as far as they are to be
/// tracked.
pub open spec fn sightings(options: MonitorOptions, notifications: Seq<NotificationModel>) -> Seq<
    (Seq<u16>, ItemMetadata),
>
    decreases notifications.len(),
{
    if notifications.len() == 0 {
        Seq::empty()
    } else {
        let front = sightings(options, notifications.drop_last());
        let last = notifications.last();
        let meta = wanted(options, reported(last.info.action));
        if meta == untouched() {
            front
        } else {
            front.push((last.filename, meta))
        }
    }
}

/// What a watching finds is what its notifications tell together, in whatever
/// portions the system sends them.
pub proof fn a_watching_gathers_its_notifications(
    options: MonitorOptions,
    first: Seq<NotificationModel>,
    second: Seq<NotificationModel>,
)
    ensures
        after_notifications(options, Map::empty(), first) == gathered(sightings(options, first)),
        after_notifications(options, after_notifications(options, Map::empty(), first), second)
            == gathered(sightings(options, first + second)),
    decreases first.len() + second.len(),
{
    if second.len() > 0 {
        a_watching_gathers_its_notifications(options, first, second.drop_last());
        assert((first + second).drop_last() =~= first + second.drop_last());
        let front = sightings(options, first + second.drop_last());
        let last = second.last();
        let meta = wanted(options, reported(last.info.action));
        assert(front.push((last.filename, meta)).drop_last() =~= front);
    } else {
        assert(first + second =~= first);
        if first.len() > 0 {
            a_watching_gathers_its_notifications(options, first.drop_last(), second);
            let front = sightings(options, first.drop_last());
            let last = first.last();
            let meta = wanted(options, reported(last.info.action));
            assert(front.push((last.filename, meta)).drop_last() =~= front);
        }
    }
}

/// Nothing is noted of a file but what is to be tracked, and no file is noted
/// without a change.
pub proof fn only_wanted_changes_are_seen(
    options: MonitorOptions,
    notifications: Seq<NotificationModel>,
    name: Seq<u16>,
)
    requires
        after_notifications(options, Map::empty(), notifications).dom().contains(name),
    ensures
        ({
            let meta = after_notifications(options, Map::empty(), notifications)[name];
            wanted(options, meta) == meta && meta != untouched()
        }),
    decreases notifications.len(),
{
    if notifications.len() > 0 {
        let front = notifications.drop_last();
        if after_notifications(options, Map::empty(), front).dom().contains(name) {
            only_wanted_changes_are_seen(options, front, name);
        }
    }
}

} // verus!
