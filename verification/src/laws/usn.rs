//! What the change journal tells of files, and how it is asked.

use std::ops::Range;

use vstd::prelude::*;

use crate::changes::{ChangeMap, ItemMap};
use crate::item::{ItemAction, ItemMetadata};
use crate::laws::items::{lemma_paths_of_keys, put_in_turn, the_last_value_counts};
use crate::laws::effects::notes;
use crate::laws::layout::{
    lemma_capacities, lemma_field_is_read, lemma_number_bytes, lemma_signed_bytes,
    lemma_signed_field_is_read, lemma_text_is_read, number_bytes, signed_bytes, text_bytes,
};
use crate::laws::recording::asks_for;
use crate::laws::text::{lemma_hexadecimal, number_in};
use crate::monitor::journal::{
    parse_records, record_views, JournalFormatError, UsnRecord, UsnRecordModel,
};
use crate::monitor::usn::{
    are_lookups, counts, counts_for, error_folder, files_are_what_the_records_tell, listed_files,
    name_views, named_file, parse_name_info, reported, told, EnumRead, FileId, FileLookup,
    JournalError, LookupModel, MftEnumData, NameInfoError, RangeRead, ReadUsnJournalData, Usn,
    UsnJournalData, UsnMonitor, UsnMonitorError, VolumeError,
};
use crate::options::MonitorOptions;
use crate::path::{path_key, ComponentModel, PrefixModel, WinPath};
use crate::text::{hex_text, utf16, utf16_keeps_text};

verus! {

/// The reasons of a record tell of the change `action`. A changed link may be a new
/// file as well as a lost one.
pub open spec fn tells(reason: u32, action: ItemAction) -> bool {
    match action {
        ItemAction::Create => reason & 0x100 != 0 || reason & 0x1_0000 != 0,
        ItemAction::Delete => reason & 0x200 != 0 || reason & 0x1_0000 != 0,
        ItemAction::Modify => reason & 1 != 0 || reason & 2 != 0 || reason & 4 != 0,
        ItemAction::Rename => reason & 0x2000 != 0,
    }
}

proof fn lemma_tells(reason: u32, action: ItemAction)
    ensures
        notes(reported(reason), action) <==> tells(reason, action),
{
    assert(0x100u32 | 0x1_0000u32 == 0x1_0100u32) by (bit_vector);
    assert(0x200u32 | 0x1_0000u32 == 0x1_0200u32) by (bit_vector);
    assert(2u32 | 1u32 | 4u32 == 7u32) by (bit_vector);
    assert({
        &&& reason & 0x1_0100 != 0 <==> reason & 0x100 != 0 || reason & 0x1_0000 != 0
        &&& reason & 0x1_0200 != 0 <==> reason & 0x200 != 0 || reason & 0x1_0000 != 0
        &&& reason & 7 != 0 <==> reason & 1 != 0 || reason & 2 != 0 || reason & 4 != 0
    }) by (bit_vector);
}

/// A change is noted of a record exactly if its reasons tell of it and the options
/// ask for it.
pub proof fn reasons_tell_of_changes(
    monitor: &UsnMonitor,
    reason: u32,
    r: ItemMetadata,
    action: ItemAction,
)
    requires
        call_ensures(UsnMonitor::get_meta, (monitor, reason), r),
    ensures
        notes(r, action) <==> tells(reason, action) && asks_for(monitor.options, action),
{
    lemma_tells(reason, action);
}

/// The file that a record is about: a record of version 2 gives a number of 64
/// bits, one of version 3 a number of 128 bits, and one of version 4 is about none.
pub open spec fn is_about(record: UsnRecordModel, id: FileId) -> bool {
    match record {
        UsnRecordModel::V2 { record, .. } => id == FileId::Short(
            record.file_reference_number as i64,
        ),
        UsnRecordModel::V3 { record, .. } => id == FileId::Long(record.file_reference_number),
        UsnRecordModel::V4 { .. } => false,
    }
}

pub open spec fn reason_of(record: UsnRecordModel) -> u32 {
    match record {
        UsnRecordModel::V2 { record, .. } => record.reason,
        UsnRecordModel::V3 { record, .. } => record.reason,
        UsnRecordModel::V4 { record, .. } => record.reason,
    }
}

pub open spec fn name_of(record: UsnRecordModel) -> Seq<u16> {
    match record {
        UsnRecordModel::V2 { filename, .. } => filename,
        UsnRecordModel::V3 { filename, .. } => filename,
        UsnRecordModel::V4 { .. } => Seq::empty(),
    }
}

/// The record is no mere note that a file was closed, gave up a name or changed its
/// reparse point.
pub open spec fn is_plain(record: UsnRecordModel) -> bool {
    let reason = reason_of(record);
    reason & 0x8000_0000 == 0 && reason & 0x1000 == 0 && reason & 0x10_0000 == 0
}

/// The record is plain and tells of the change `action` to the file `id`, for which
/// the options ask.
pub open spec fn record_tells(
    options: MonitorOptions,
    record: UsnRecordModel,
    id: FileId,
    action: ItemAction,
) -> bool {
    is_about(record, id) && is_plain(record) && tells(reason_of(record), action) && asks_for(
        options,
        action,
    )
}

/// The record tells of some change to the file `id` for which the options ask.
pub open spec fn record_tells_something(
    options: MonitorOptions,
    record: UsnRecordModel,
    id: FileId,
) -> bool {
    record_tells(options, record, id, ItemAction::Create) || record_tells(
        options,
        record,
        id,
        ItemAction::Modify,
    ) || record_tells(options, record, id, ItemAction::Delete) || record_tells(
        options,
        record,
        id,
        ItemAction::Rename,
    )
}

proof fn lemma_record_tells(
    options: MonitorOptions,
    record: UsnRecordModel,
    id: FileId,
    action: ItemAction,
)
    ensures
        counts_for(options, record, id) <==> record_tells_something(options, record, id),
        counts_for(options, record, id) && notes(told(options, record), action) <==> record_tells(
            options,
            record,
            id,
            action,
        ),
        counts_for(options, record, id) ==> (named_file(record)->0).1 == name_of(record),
{
    let reason = reason_of(record);
    lemma_tells(reason, ItemAction::Create);
    lemma_tells(reason, ItemAction::Modify);
    lemma_tells(reason, ItemAction::Delete);
    lemma_tells(reason, ItemAction::Rename);
    assert(0x8000_0000u32 | 0x1000u32 | 0x10_0000u32 == 0x8010_1000u32) by (bit_vector);
    assert(reason & 0x8010_1000 == 0 <==> reason & 0x8000_0000 == 0 && reason & 0x1000 == 0 && reason
        & 0x10_0000 == 0) by (bit_vector);
}

/// A file is noted exactly if a plain record tells of a change to it that is asked
/// for. A change is noted of it exactly if such a record tells of that change, and
/// its name is the one that the last record gives that tells of anything.
pub proof fn files_are_noted_for_what_records_tell(
    monitor: &UsnMonitor,
    records: Vec<UsnRecord>,
    r: ItemMap<FileId, (Vec<u16>, ItemMetadata)>,
    id: FileId,
    action: ItemAction,
)
    requires
        call_ensures(UsnMonitor::gather, (monitor, records), r),
    ensures
        r@.dom().contains(id) <==> exists|i: int|
            0 <= i < records@.len() && record_tells_something(
                monitor.options,
                (#[trigger] records@[i])@,
                id,
            ),
        r@.dom().contains(id) ==> (notes(r@[id].1, action) <==> exists|i: int|
            0 <= i < records@.len() && record_tells(
                monitor.options,
                (#[trigger] records@[i])@,
                id,
                action,
            )),
        forall|i: int|
            0 <= i < records@.len() && record_tells_something(
                monitor.options,
                (#[trigger] records@[i])@,
                id,
            ) && (forall|k: int|
                i < k < records@.len() ==> !record_tells_something(
                    monitor.options,
                    (#[trigger] records@[k])@,
                    id,
                )) ==> r@[id].0@ == name_of(records@[i]@),
{
    let options = monitor.options;
    let views = record_views(records@);
    files_are_what_the_records_tell(options, views, id);
    assert forall|i: int| 0 <= i < views.len() implies #[trigger] views[i] == records@[i]@ && (
    counts_for(options, views[i], id) <==> record_tells_something(options, views[i], id)) && (
    counts_for(options, views[i], id) && notes(told(options, views[i]), action) <==> record_tells(
        options,
        views[i],
        id,
        action,
    )) && (counts_for(options, views[i], id) ==> (named_file(views[i])->0).1 == name_of(
        views[i],
    )) by {
        lemma_record_tells(options, views[i], id, action);
    }
    assert(name_views(r@).dom() =~= r@.dom());
    if r@.dom().contains(id) {
        assert(name_views(r@)[id] == (r@[id].0@, r@[id].1));
        let i = choose|i: int| 0 <= i < views.len() && counts_for(options, #[trigger] views[i], id);
        assert(record_tells_something(options, records@[i]@, id));
        if notes(r@[id].1, action) {
            let i = choose|i: int|
                0 <= i < views.len() && counts_for(options, #[trigger] views[i], id) && notes(
                    told(options, views[i]),
                    action,
                );
            assert(record_tells(options, records@[i]@, id, action));
        }
        if exists|i: int|
            0 <= i < records@.len() && record_tells(
                options,
                (#[trigger] records@[i])@,
                id,
                action,
            ) {
            let i = choose|i: int|
                0 <= i < records@.len() && record_tells(
                    options,
                    (#[trigger] records@[i])@,
                    id,
                    action,
                );
            assert(counts_for(options, views[i], id) && notes(told(options, views[i]), action));
        }
        let last = choose|i: int|
            0 <= i < views.len() && counts_for(options, #[trigger] views[i], id) && (named_file(
                views[i],
            )->0).1 == r@[id].0@ && forall|k: int|
                i < k < views.len() ==> !counts_for(options, #[trigger] views[k], id);
        assert forall|i: int|
            0 <= i < records@.len() && record_tells_something(
                options,
                (#[trigger] records@[i])@,
                id,
            ) && (forall|k: int|
                i < k < records@.len() ==> !record_tells_something(
                    options,
                    (#[trigger] records@[k])@,
                    id,
                )) implies r@[id].0@ == name_of(records@[i]@) by {
            assert(counts_for(options, views[i], id));
            assert(record_tells_something(options, records@[last]@, id));
            assert(i == last);
        }
    }
    assert forall|i: int|
        0 <= i < records@.len() && record_tells_something(
            options,
            (#[trigger] records@[i])@,
            id,
        ) implies r@.dom().contains(id) by {
        assert(counts_for(options, views[i], id));
    }
}

/// A range is read from its start, up to its end or the newest record, whichever
/// comes first. The journal is asked for all records at once as they come, of
/// versions 2 to 4 as far as it has them. A range whose start the journal has
/// already given up is refused.
pub proof fn a_range_is_read_from_its_start(
    query: &UsnJournalData,
    range: Range<i64>,
    reason_mask: u32,
    r: Result<RangeRead, JournalError>,
)
    requires
        call_ensures(Usn::read_range, (query, range, reason_mask), r),
    ensures
        r is Err <==> range.start < query.first_usn,
        r matches Err(e) ==> e == (JournalError::StartsTooEarly {
            start: range.start,
            first_usn: query.first_usn,
        }),
        r matches Ok(reading) ==> {
            &&& reading.input.start_usn == range.start
            &&& reading.input.reason_mask == reason_mask
            &&& reading.input.return_only_on_close == 0
            &&& reading.input.timeout == 0
            &&& reading.input.bytes_to_wait_for == 65536
            &&& reading.input.usn_journal_id == query.usn_journal_id
            &&& reading.input.min_major_version >= 2
            &&& reading.input.min_major_version >= query.min_supported_major_version
            &&& reading.input.min_major_version == 2 || reading.input.min_major_version
                == query.min_supported_major_version
            &&& reading.input.max_major_version <= 4
            &&& reading.input.max_major_version <= query.max_supported_major_version
            &&& reading.input.max_major_version == 4 || reading.input.max_major_version
                == query.max_supported_major_version
            &&& reading.end <= range.end
            &&& reading.end <= query.next_usn
            &&& reading.end == range.end || reading.end == query.next_usn
            &&& reading.records@.len() == 0
            &&& !reading.finished
        },
{
    if let Ok(reading) = r {
        assert(reading@.records.len() == reading.records@.len());
    }
}

/// A range that is being read is asked for as long as its end is not reached.
pub proof fn a_range_is_asked_for_up_to_its_end(
    reading: &RangeRead,
    r: Option<ReadUsnJournalData>,
)
    requires
        call_ensures(RangeRead::next_request, (reading,), r),
    ensures
        r is Some <==> !reading.finished && reading.input.start_usn < reading.end,
        r matches Some(input) ==> input == reading.input,
{
}

/// A reply is read from the bytes that were received and from no others.
pub proof fn replies_are_read_from_what_was_received(
    input: &ReadUsnJournalData,
    scratch: &[u8],
    bytes_received: u32,
    received: &[u8],
    r: Result<(i64, Vec<UsnRecord>), JournalError>,
    s: Result<(i64, Vec<UsnRecord>), JournalFormatError>,
)
    requires
        call_ensures(Usn::read_journal, (input, scratch, bytes_received), r),
        call_ensures(parse_records, (received,), s),
        bytes_received <= input.bytes_to_wait_for <= scratch@.len(),
        received@ == scratch@.take(bytes_received as int),
    ensures
        match s {
            Ok((next, records)) => r matches Ok((n, read)) && n == next && record_views(read@)
                == record_views(records@),
            Err(e) => r matches Err(JournalError::Format(reason)) && reason == e,
        },
{
    assert(scratch@.take(input.bytes_to_wait_for as int).take(bytes_received as int)
        =~= received@);
}

/// The device of a volume is named by its letter in upper case; the root without a
/// prefix is that of the volume C. The device of a share is named by server and
/// share, and any other volume by its own name.
pub proof fn volumes_are_opened_by_their_names(path: &WinPath, r: Result<Usn, VolumeError>)
    requires
        call_ensures(Usn::from_path, (path,), r),
        path@.len() == 1 || (path@.len() == 2 && path@[1] is RootDir),
    ensures
        path@.len() == 1 && path@[0] is RootDir ==> (r matches Ok(usn) && usn.device@
            == seq![0x5cu16, 0x5c, 0x2e, 0x5c, 0x43, 0x3a, 0]),
        (path@[0] matches ComponentModel::Prefix { kind: PrefixModel::Disk(letter), .. } && 0x41
            <= letter <= 0x5a) ==> (r matches Ok(usn) && usn.device@ == seq![
            0x5cu16,
            0x5c,
            0x2e,
            0x5c,
            path@[0]->kind->Disk_0 as u16,
            0x3a,
            0,
        ]),
        path@[0] is CurDir || path@[0] is ParentDir || path@[0] is Normal || (path@[0] is RootDir
            && path@.len() == 2) ==> (r matches Err(e) && e == VolumeError::InvalidPath),
        (path@[0] matches ComponentModel::Prefix { kind, text } && !(kind is Disk) && !(
        kind is Unc) && (forall|i: int| 0 <= i < text.len() ==> #[trigger] text[i] != 0)) ==> (
        r matches Ok(usn) && usn.device@ == path@[0]->text.push(0)),
{
    if path@[0] is RootDir && path@.len() == 1 {
        lemma_device(path@, 0x43, r);
    }
    if let ComponentModel::Prefix { kind: PrefixModel::Disk(letter), .. } = path@[0] {
        if 0x41 <= letter <= 0x5a {
            lemma_device(path@, letter, r);
        }
    }
}

proof fn lemma_device(path: Seq<ComponentModel>, letter: u8, r: Result<Usn, VolumeError>)
    requires
        0x41 <= letter <= 0x5a,
        crate::monitor::usn::opens(crate::monitor::usn::letter_device(letter as char), r),
    ensures
        r matches Ok(usn) && usn.device@ == seq![
            0x5cu16,
            0x5c,
            0x2e,
            0x5c,
            letter as u16,
            0x3a,
            0,
        ],
{
    let name = crate::monitor::usn::letter_device(letter as char);
    assert(name =~= seq![0x5cu16, 0x5c, 0x2e, 0x5c, letter as u16, 0x3a]);
    assert(forall|i: int| 0 <= i < name.len() ==> name[i] != 0);
    assert(crate::text::nul_terminated(name) =~= seq![
        0x5cu16,
        0x5c,
        0x2e,
        0x5c,
        letter as u16,
        0x3a,
        0,
    ]);
}

/// A path with more than a volume in it is refused, and so is one with nothing in
/// it.
pub proof fn only_volumes_have_a_journal(path: &WinPath, r: Result<Usn, VolumeError>)
    requires
        call_ensures(Usn::from_path, (path,), r),
        path@.len() == 0 || path@.len() > 2 || (path@.len() == 2 && !(path@[1] is RootDir)),
    ensures
        r matches Err(e) && e == VolumeError::InvalidPath,
{
}

/// The reply to a query, as Windows lays it out.
pub open spec fn query_bytes(q: UsnJournalData) -> Seq<u8> {
    number_bytes(q.usn_journal_id as nat, 8) + signed_bytes(q.first_usn) + signed_bytes(q.next_usn)
        + signed_bytes(q.lowest_valid_usn) + signed_bytes(q.max_usn)
        + number_bytes(q.maximum_size as nat, 8) + number_bytes(q.allocation_delta as nat, 8)
        + number_bytes(q.min_supported_major_version as nat, 2)
        + number_bytes(q.max_supported_major_version as nat, 2) + number_bytes(q.flags as nat, 4)
        + number_bytes(q.range_track_chunk_size as nat, 8)
        + signed_bytes(q.range_track_file_size_threshold)
}

/// Reading undoes laying out: a reply to a query is read with every field as it
/// was written, and bytes of any other number are refused.
pub proof fn queries_are_read_as_they_were_written(
    reply: &[u8],
    q: UsnJournalData,
    r: Result<UsnJournalData, JournalError>,
)
    requires
        call_ensures(Usn::query_journal, (reply,), r),
    ensures
        reply@ == query_bytes(q) ==> (r matches Ok(read) && read == q),
        reply@.len() != 80 ==> (r matches Err(e) && e == JournalError::InvalidQuerySize),
{
    if reply@ == query_bytes(q) {
        lemma_query(reply, q);
    }
}

proof fn lemma_query(reply: &[u8], q: UsnJournalData)
    requires
        reply@ == query_bytes(q),
    ensures
        reply@.len() == 80,
        crate::monitor::usn::journal_data(reply@) == q,
{
    lemma_capacities();
    lemma_number_bytes(q.usn_journal_id as nat, 8);
    lemma_signed_bytes(q.first_usn);
    lemma_signed_bytes(q.next_usn);
    lemma_signed_bytes(q.lowest_valid_usn);
    lemma_signed_bytes(q.max_usn);
    lemma_number_bytes(q.maximum_size as nat, 8);
    lemma_number_bytes(q.allocation_delta as nat, 8);
    lemma_number_bytes(q.min_supported_major_version as nat, 2);
    lemma_number_bytes(q.max_supported_major_version as nat, 2);
    lemma_number_bytes(q.flags as nat, 4);
    lemma_number_bytes(q.range_track_chunk_size as nat, 8);
    lemma_signed_bytes(q.range_track_file_size_threshold);
    assert(reply@.subrange(0, 8) =~= number_bytes(q.usn_journal_id as nat, 8));
    lemma_field_is_read(reply@, 0, q.usn_journal_id as nat, 8);
    assert(reply@.subrange(8, 16) =~= signed_bytes(q.first_usn));
    lemma_signed_field_is_read(reply@, 8, q.first_usn);
    assert(reply@.subrange(16, 24) =~= signed_bytes(q.next_usn));
    lemma_signed_field_is_read(reply@, 16, q.next_usn);
    assert(reply@.subrange(24, 32) =~= signed_bytes(q.lowest_valid_usn));
    lemma_signed_field_is_read(reply@, 24, q.lowest_valid_usn);
    assert(reply@.subrange(32, 40) =~= signed_bytes(q.max_usn));
    lemma_signed_field_is_read(reply@, 32, q.max_usn);
    assert(reply@.subrange(40, 48) =~= number_bytes(q.maximum_size as nat, 8));
    lemma_field_is_read(reply@, 40, q.maximum_size as nat, 8);
    assert(reply@.subrange(48, 56) =~= number_bytes(q.allocation_delta as nat, 8));
    lemma_field_is_read(reply@, 48, q.allocation_delta as nat, 8);
    assert(reply@.subrange(56, 58) =~= number_bytes(q.min_supported_major_version as nat, 2));
    lemma_field_is_read(reply@, 56, q.min_supported_major_version as nat, 2);
    assert(reply@.subrange(58, 60) =~= number_bytes(q.max_supported_major_version as nat, 2));
    lemma_field_is_read(reply@, 58, q.max_supported_major_version as nat, 2);
    assert(reply@.subrange(60, 64) =~= number_bytes(q.flags as nat, 4));
    lemma_field_is_read(reply@, 60, q.flags as nat, 4);
    assert(reply@.subrange(64, 72) =~= number_bytes(q.range_track_chunk_size as nat, 8));
    lemma_field_is_read(reply@, 64, q.range_track_chunk_size as nat, 8);
    assert(reply@.subrange(72, 80) =~= signed_bytes(q.range_track_file_size_threshold));
    lemma_signed_field_is_read(reply@, 72, q.range_track_file_size_threshold);
}

/// The name of a file is read as it was written: behind the number of its bytes.
/// What follows it does not count.
pub proof fn names_of_files_are_read_as_they_were_written(
    buffer: &[u8],
    name: Seq<u16>,
    r: Result<Vec<u16>, NameInfoError>,
)
    requires
        call_ensures(parse_name_info, (buffer,), r),
        2 * name.len() <= u32::MAX,
        buffer@.len() >= 4 + 2 * name.len(),
        buffer@.take(4 + 2 * name.len() as int) == number_bytes(2 * name.len(), 4) + text_bytes(
            name,
        ),
    ensures
        r matches Ok(read) && read@ == name,
{
    lemma_capacities();
    lemma_number_bytes(2 * name.len(), 4);
    lemma_text_is_read(name);
    let all = buffer@.take(4 + 2 * name.len() as int);
    assert(buffer@.subrange(0, 4) =~= all.subrange(0, 4));
    assert(all.subrange(0, 4) =~= number_bytes(2 * name.len(), 4));
    lemma_field_is_read(buffer@, 0, 2 * name.len(), 4);
    assert(buffer@.subrange(4, 4 + 2 * name.len() as int) =~= all.skip(4));
    assert(all.skip(4) =~= text_bytes(name));
}

/// A file that was found is listed by its path. One that was lost is listed in a
/// folder named after the error: its number in the hexadecimal system behind `0x`.
pub proof fn lost_files_are_listed_by_their_error(lookup: &FileLookup, r: WinPath)
    requires
        call_ensures(FileLookup::to_path, (lookup,), r),
    ensures
        lookup@ matches LookupModel::Found(path) ==> r@ == path,
        (lookup@ matches LookupModel::Lost { reading, .. } && reading.len() == 1
            && reading[0] is Normal) ==> exists|digits: Seq<char>| #[trigger]
            number_in(digits, 16) == lookup@->code as u32 && digits.len() > 0 && r@ == seq![
                ComponentModel::Normal(seq![0x30u16, 0x78] + utf16(digits)),
                lookup@->reading[0],
            ],
{
    if let LookupModel::Lost { code, reading } = lookup@ {
        if reading.len() == 1 && reading[0] is Normal {
            let digits = hex_text(code as u32 as nat);
            lemma_hexadecimal(code as u32 as nat);
            assert(number_in(digits, 16) == code as u32);
            assert(error_folder(code) =~= seq![0x30u16, 0x78] + utf16(digits));
            assert(r@ =~= seq![
                ComponentModel::Normal(seq![0x30u16, 0x78] + utf16(digits)),
                reading[0],
            ]);
        }
    }
}

proof fn lemma_listed_files(
    changes: Seq<(FileId, (Vec<u16>, ItemMetadata))>,
    lookups: Seq<FileLookup>,
    keys: Seq<Seq<ComponentModel>>,
    values: Seq<ItemMetadata>,
)
    requires
        lookups.len() == changes.len(),
        keys.len() == changes.len(),
        values.len() >= changes.len(),
        forall|i: int|
            0 <= i < keys.len() ==> #[trigger] keys[i] == path_key(
                crate::monitor::usn::listed_path(lookups[i]@),
            ) && values[i] == (changes[i].1).1,
    ensures
        listed_files(changes, lookups) == put_in_turn(keys, values),
    decreases changes.len(),
{
    if changes.len() > 0 {
        let front = keys.drop_last();
        assert forall|i: int| 0 <= i < front.len() implies #[trigger] front[i] == path_key(
            crate::monitor::usn::listed_path(lookups.drop_last()[i]@),
        ) && values[i] == (changes.drop_last()[i].1).1 by {
            assert(front[i] == keys[i]);
        }
        lemma_listed_files(changes.drop_last(), lookups.drop_last(), front, values);
    }
}

/// A run that was started and stopped lists every changed file under the path that
/// was found for it, and nothing else. Of files with the same path the last one
/// counts.
pub proof fn changed_files_are_listed_under_their_paths(
    monitor: &UsnMonitor,
    changes: &Vec<(FileId, (Vec<u16>, ItemMetadata))>,
    lookups: &Vec<FileLookup>,
    r: Result<ChangeMap<WinPath>, UsnMonitorError>,
    range: Result<(i64, i64), UsnMonitorError>,
    paths: Seq<WinPath>,
    k: Seq<ComponentModel>,
)
    requires
        call_ensures(UsnMonitor::get_changed_files, (monitor, changes, lookups), r),
        call_ensures(UsnMonitor::range, (monitor,), range),
        are_lookups(lookups@, changes@),
        paths.len() == lookups@.len(),
        forall|i: int|
            0 <= i < paths.len() ==> call_ensures(
                FileLookup::to_path,
                (&lookups@[i],),
                #[trigger] paths[i],
            ),
    ensures
        r is Ok <==> range is Ok,
        (r matches Err(e) ==> (range matches Err(f) && e == f)),
        r matches Ok(files) ==> {
            &&& files@.dom().contains(k) <==> exists|i: int|
                0 <= i < paths.len() && path_key((#[trigger] paths[i])@) == k
            &&& forall|i: int|
                0 <= i < paths.len() && path_key((#[trigger] paths[i])@) == k && (forall|j: int|
                    i < j < paths.len() ==> path_key((#[trigger] paths[j])@) != k) ==> files@[k] == (
                changes@[i].1).1
        },
{
    assert forall|i: int| 0 <= i < paths.len() implies (#[trigger] paths[i])@
        == crate::monitor::usn::listed_path(lookups@[i]@) by {
        assert(call_ensures(FileLookup::to_path, (&lookups@[i],), paths[i]));
    }
    let keys = paths.map_values(|p: WinPath| path_key(p@));
    let values = changes@.map_values(|c: (FileId, (Vec<u16>, ItemMetadata))| (c.1).1);
    lemma_listed_files(changes@, lookups@, keys, values);
    the_last_value_counts(keys, values, k);
    lemma_paths_of_keys(paths, keys, k);
}

/// To take in a reply is to read it and to take in what it says. A reply that
/// cannot be read changes nothing.
pub proof fn taking_in_a_reply_reads_it(
    reading: &mut RangeRead,
    scratch: &[u8],
    bytes_received: u32,
    r: Result<(), JournalError>,
    reply: Result<(i64, Vec<UsnRecord>), JournalError>,
    other: &mut RangeRead,
    next_usn: i64,
    records: Vec<UsnRecord>,
)
    requires
        call_ensures(RangeRead::advance, (reading, scratch, bytes_received), r),
        call_ensures(Usn::read_journal, (&old(reading).input, scratch, bytes_received), reply),
        *old(other) == *old(reading),
        call_ensures(RangeRead::accept, (other, next_usn, records), ()),
        reply matches Ok(parts) ==> parts.0 == next_usn && parts.1@ == records@,
    ensures
        r is Ok <==> reply is Ok,
        r matches Err(e) ==> (reply matches Err(f) && e == f) && final(reading)@ == old(reading)@,
        r is Ok ==> final(reading)@ == final(other)@,
{
}

/// A listing of the file table goes on with the file that the reply names as the
/// next, and adds the records of the reply. A reply without records ends it.
pub proof fn a_listing_goes_on_until_a_reply_is_empty(
    listing: &mut EnumRead,
    scratch: &[u8],
    bytes_received: u32,
    r: Result<(), JournalError>,
    reply: Result<(i64, Vec<UsnRecord>), JournalError>,
)
    requires
        call_ensures(EnumRead::advance, (listing, scratch, bytes_received), r),
        call_ensures(Usn::enum_journal, (scratch, bytes_received), reply),
    ensures
        match reply {
            Ok((next, records)) => {
                &&& r is Ok
                &&& record_views(final(listing).records@) == record_views(old(listing).records@)
                    + record_views(records@)
                &&& final(listing).finished <==> old(listing).finished || records@.len() == 0
                &&& records@.len() == 0 ==> final(listing).input == old(listing).input
                &&& records@.len() > 0 ==> final(listing).input == (MftEnumData {
                    start_file_reference_number: next as u64,
                    ..old(listing).input
                })
            },
            Err(e) => {
                &&& r matches Err(f) && f == e
                &&& record_views(final(listing).records@) == record_views(old(listing).records@)
                &&& final(listing).finished == old(listing).finished
                &&& final(listing).input == old(listing).input
            },
        },
{
    assert(final(listing)@.records == record_views(final(listing).records@));
    assert(final(listing)@.input == final(listing).input);
    assert(final(listing)@.finished == final(listing).finished);
    if let Ok((next, records)) = reply {
        assert(record_views(records@).len() == records@.len());
        if records@.len() == 0 {
            assert(record_views(old(listing).records@) + record_views(records@) =~= record_views(
                old(listing).records@,
            ));
        }
    }
}

/// The end of the file table ends a listing, which keeps what it has.
pub proof fn the_end_of_the_table_ends_a_listing(listing: &mut EnumRead)
    requires
        call_ensures(EnumRead::end_of_table, (listing,), ()),
    ensures
        final(listing).finished,
        record_views(final(listing).records@) == record_views(old(listing).records@),
        final(listing).input == old(listing).input,
{
    assert(final(listing)@.finished == final(listing).finished);
    assert(final(listing)@.input == final(listing).input);
    assert(final(listing)@.records == record_views(final(listing).records@));
}

/// A buffer takes the reply to a request exactly if it is not smaller than what is
/// asked for.
pub proof fn a_buffer_takes_what_is_asked_for(
    input: &ReadUsnJournalData,
    provided: usize,
    r: Result<usize, JournalError>,
)
    requires
        call_ensures(Usn::reply_size, (input, provided), r),
    ensures
        provided >= input.bytes_to_wait_for ==> (r matches Ok(size) && size
            == input.bytes_to_wait_for),
        provided < input.bytes_to_wait_for ==> (r matches Err(e) && e
            == JournalError::ScratchTooSmall { required: input.bytes_to_wait_for, provided }),
{
}

/// A name that the buffer does not hold is refused, and so is one with half a unit.
pub proof fn malformed_names_are_refused(
    buffer: &[u8],
    length: u32,
    r: Result<Vec<u16>, NameInfoError>,
)
    requires
        call_ensures(parse_name_info, (buffer,), r),
        buffer@.len() >= 4,
        buffer@.take(4) == number_bytes(length as nat, 4),
    ensures
        4 + length > buffer@.len() ==> (r matches Err(e) && e == NameInfoError::BufferTooSmall),
        4 + length <= buffer@.len() && length % 2 == 1 ==> (r matches Err(e) && e
            == NameInfoError::OddNameLength),
{
    lemma_capacities();
    assert(buffer@.subrange(0, 4) =~= buffer@.take(4));
    lemma_field_is_read(buffer@, 0, length as nat, 4);
}

/// Replies that claim more bytes than there is room for are refused, and so is a
/// buffer that is smaller than what was asked for.
pub proof fn replies_beyond_their_buffer_are_refused(
    input: &ReadUsnJournalData,
    scratch: &[u8],
    bytes_received: u32,
    r: Result<(i64, Vec<UsnRecord>), JournalError>,
    s: Result<(i64, Vec<UsnRecord>), JournalError>,
)
    requires
        call_ensures(Usn::read_journal, (input, scratch, bytes_received), r),
        call_ensures(Usn::enum_journal, (scratch, bytes_received), s),
    ensures
        scratch@.len() < input.bytes_to_wait_for ==> (r matches Err(e) && e
            == JournalError::ScratchTooSmall {
            required: input.bytes_to_wait_for,
            provided: scratch@.len() as usize,
        }),
        bytes_received > input.bytes_to_wait_for && scratch@.len() >= input.bytes_to_wait_for ==> (
        r matches Err(e) && e == JournalError::InvalidReplySize),
        bytes_received > scratch@.len() ==> (s matches Err(e) && e
            == JournalError::InvalidReplySize),
{
}

/// The device of a share is named by server and share behind `\\?\UNC\`.
pub proof fn shares_are_opened_by_server_and_share(
    path: &WinPath,
    server: Seq<char>,
    share: Seq<char>,
    r: Result<Usn, VolumeError>,
)
    requires
        call_ensures(Usn::from_path, (path,), r),
        path@.len() == 1 || (path@.len() == 2 && path@[1] is RootDir),
        path@[0] matches ComponentModel::Prefix { kind, .. } && kind == PrefixModel::Unc(
            utf16(server),
            utf16(share),
        ),
        forall|i: int| 0 <= i < utf16(server).len() ==> #[trigger] utf16(server)[i] != 0,
        forall|i: int| 0 <= i < utf16(share).len() ==> #[trigger] utf16(share)[i] != 0,
    ensures
        r matches Ok(usn) && usn.device@ == seq![
            0x5cu16,
            0x5c,
            0x3f,
            0x5c,
            0x55,
            0x4e,
            0x43,
            0x5c,
        ] + utf16(server) + seq![0x5cu16] + utf16(share) + seq![0u16],
{
    utf16_keeps_text(server);
    utf16_keeps_text(share);
    let name = crate::monitor::usn::path_device(path@)->0;
    let start = seq![0x5cu16, 0x5c, 0x3f, 0x5c, 0x55, 0x4e, 0x43, 0x5c];
    assert(name =~= start + utf16(server) + seq![0x5cu16] + utf16(share));
    assert forall|i: int| 0 <= i < name.len() implies #[trigger] name[i] != 0 by {
        let s = utf16(server);
        let t = utf16(share);
        if i < 8 {
            assert(name[i] == start[i]);
        } else if i < 8 + s.len() {
            assert(name[i] == s[i - 8]);
        } else if i > 8 + s.len() {
            assert(name[i] == t[i - 9 - s.len()]);
        }
    }
    assert(crate::monitor::usn::opens(name, r));
    assert(crate::text::nul_terminated(name) =~= start + utf16(server) + seq![0x5cu16] + utf16(
        share,
    ) + seq![0u16]);
}

/// A volume is opened by its letter as it is given.
pub proof fn a_letter_opens_its_volume(letter: char, r: Result<Usn, VolumeError>)
    requires
        call_ensures(Usn::from_letter, (letter,), r),
        'A' <= letter <= 'Z' || 'a' <= letter <= 'z',
    ensures
        r matches Ok(usn) && usn.device@ == seq![
            0x5cu16,
            0x5c,
            0x2e,
            0x5c,
            letter as u16,
            0x3a,
            0,
        ],
{
    let name = crate::monitor::usn::letter_device(letter);
    assert(name =~= seq![0x5cu16, 0x5c, 0x2e, 0x5c, letter as u16, 0x3a]);
    assert(forall|i: int| 0 <= i < name.len() ==> name[i] != 0);
    assert(crate::text::nul_terminated(name) =~= seq![
        0x5cu16,
        0x5c,
        0x2e,
        0x5c,
        letter as u16,
        0x3a,
        0,
    ]);
}

} // verus!
