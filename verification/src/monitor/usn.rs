//! Following the NTFS change journal of a volume: which device to open, what to
//! ask it, and what its replies say of the files that changed.

use std::ops::Range;

use vstd::prelude::*;
use vstd::slice::slice_subrange;

use crate::bytes::{field, le_units, read_i64, read_u16, read_u32, read_u64, read_units, signed_field};
use crate::changes::{
    inserted_all, inserted_names_are_kept, with_names, ChangeKey, ChangeMap, ItemMap,
};
use crate::item::{merged, untouched, ItemMetadata};
use crate::monitor::journal::{
    journal_reply, parse_records, record_views, JournalFormatError, UsnRecord, UsnRecordModel,
};
use crate::options::{wanted, MonitorOptions, TrackOptions};
use crate::path::{
    append_units, copy_units, is_plain_name, is_reading, joined, path_key, unc_start,
    verbatim_start, ComponentModel,
    PathComponent, PrefixKind, PrefixModel, WinPath, COLON, DOT, QUESTION_MARK, SEPARATOR,
};
use crate::text::{
    encode_utf16, hex_text, is_first_nul, nul_terminated, to_hex, utf16, utf16_char, utf16_lossy,
    wide_c_string, ContainsNul,
};

verus! {

/// Size of the reply to a query of the journal.
pub const JOURNAL_DATA_SIZE: usize = 80;

/// Size of the buffer for the replies of the journal.
pub const SCRATCH_SIZE: usize = 0x10000;

pub const USN_REASON_DATA_OVERWRITE: u32 = 0x1;

pub const USN_REASON_DATA_EXTEND: u32 = 0x2;

pub const USN_REASON_DATA_TRUNCATION: u32 = 0x4;

pub const USN_REASON_FILE_CREATE: u32 = 0x100;

pub const USN_REASON_FILE_DELETE: u32 = 0x200;

pub const USN_REASON_RENAME_OLD_NAME: u32 = 0x1000;

pub const USN_REASON_RENAME_NEW_NAME: u32 = 0x2000;

pub const USN_REASON_HARD_LINK_CHANGE: u32 = 0x10000;

pub const USN_REASON_REPARSE_POINT_CHANGE: u32 = 0x100000;

pub const USN_REASON_CLOSE: u32 = 0x80000000;

/// The reasons that tell of a new file.
pub const CREATION_MASK: u32 = USN_REASON_FILE_CREATE | USN_REASON_HARD_LINK_CHANGE;

/// The reasons that tell of a lost file.
pub const DELETION_MASK: u32 = USN_REASON_FILE_DELETE | USN_REASON_HARD_LINK_CHANGE;

/// The reasons that tell of new contents.
pub const MODIFICATION_MASK: u32 = USN_REASON_DATA_EXTEND | USN_REASON_DATA_OVERWRITE
    | USN_REASON_DATA_TRUNCATION;

/// The reasons that tell of a new name.
pub const RENAMING_MASK: u32 = USN_REASON_RENAME_NEW_NAME;

/// The reasons for which a record is passed over.
pub const EXCLUDE_MASK: u32 = USN_REASON_CLOSE | USN_REASON_RENAME_OLD_NAME
    | USN_REASON_REPARSE_POINT_CHANGE;

/// Why a volume has no journal to follow.
#[derive(Debug, Clone, Copy, PartialEq, Eq, Structural)]
pub enum VolumeError {
    /// The path names no volume.
    InvalidPath,
    /// The name of the volume holds a NUL.
    ContainsNul { position: usize },
}

/// The device of a volume, by the name under which the system opens it.
#[derive(Debug)]
pub struct Usn {
    pub device: Vec<u16>,
}

/// The name of the device of the volume with the letter `letter`.
pub open spec fn letter_device(letter: char) -> Seq<u16> {
    seq![SEPARATOR, SEPARATOR, DOT, SEPARATOR] + utf16_char(letter) + seq![COLON]
}

/// The upper-case form of an ASCII letter; any other byte stays as it is.
pub open spec fn ascii_upper(b: u8) -> u8 {
    if 0x61 <= b <= 0x7a {
        (b - 0x20) as u8
    } else {
        b
    }
}

/// `units` as text, with U+FFFD in the place of what is no text.
pub open spec fn displayed(units: Seq<u16>) -> Seq<u16> {
    utf16(utf16_lossy(units))
}

/// The name of the device of the volume whose root is `path`. Without a prefix
/// the root is that of the volume `C:`.
pub open spec fn path_device(path: Seq<ComponentModel>) -> Option<Seq<u16>> {
    if path.len() == 1 && path[0] is RootDir {
        Some(letter_device('C'))
    } else if path.len() == 1 || (path.len() == 2 && path[1] is RootDir) {
        match path[0] {
            ComponentModel::Prefix { kind, text } => match kind {
                PrefixModel::Disk(letter) => Some(letter_device(ascii_upper(letter) as char)),
                PrefixModel::Unc(server, share) => Some(
                    verbatim_start() + unc_start() + displayed(server) + seq![SEPARATOR] + displayed(share),
                ),
                _ => Some(text),
            },
            _ => None,
        }
    } else {
        None
    }
}

/// What comes of opening the device `name`: `usn` stands for the device, unless
/// the name holds a NUL before its end.
pub open spec fn opens(name: Seq<u16>, r: Result<Usn, VolumeError>) -> bool {
    match r {
        Ok(usn) => usn.device@ == nul_terminated(name) && forall|at: int|
            #[trigger] is_first_nul(name, at) ==> at == name.len() - 1,
        Err(VolumeError::ContainsNul { position }) => is_first_nul(name, position as int)
            && position < name.len() - 1,
        Err(_) => false,
    }
}

/// What a query of the journal returns.
#[derive(Debug, Clone, Copy, PartialEq, Eq, Structural)]
pub struct UsnJournalData {
    pub usn_journal_id: u64,
    pub first_usn: i64,
    pub next_usn: i64,
    pub lowest_valid_usn: i64,
    pub max_usn: i64,
    pub maximum_size: u64,
    pub allocation_delta: u64,
    pub min_supported_major_version: u16,
    pub max_supported_major_version: u16,
    pub flags: u32,
    pub range_track_chunk_size: u64,
    pub range_track_file_size_threshold: i64,
}

/// The reply to a query, field by field.
pub open spec fn journal_data(reply: Seq<u8>) -> UsnJournalData {
    UsnJournalData {
        usn_journal_id: field(reply, 0, 8) as u64,
        first_usn: signed_field(reply, 8) as i64,
        next_usn: signed_field(reply, 16) as i64,
        lowest_valid_usn: signed_field(reply, 24) as i64,
        max_usn: signed_field(reply, 32) as i64,
        maximum_size: field(reply, 40, 8) as u64,
        allocation_delta: field(reply, 48, 8) as u64,
        min_supported_major_version: field(reply, 56, 2) as u16,
        max_supported_major_version: field(reply, 58, 2) as u16,
        flags: field(reply, 60, 4) as u32,
        range_track_chunk_size: field(reply, 64, 8) as u64,
        range_track_file_size_threshold: signed_field(reply, 72) as i64,
    }
}

/// What the journal is asked for when its records are read.
#[derive(Debug, Clone, Copy, PartialEq, Eq, Structural)]
pub struct ReadUsnJournalData {
    pub start_usn: i64,
    pub reason_mask: u32,
    pub return_only_on_close: u32,
    pub timeout: u64,
    pub bytes_to_wait_for: u64,
    pub usn_journal_id: u64,
    pub min_major_version: u16,
    pub max_major_version: u16,
}

/// What the file table is asked for when its files are listed.
#[derive(Debug, Clone, Copy, PartialEq, Eq, Structural)]
pub struct MftEnumData {
    pub start_file_reference_number: u64,
    pub low_usn: i64,
    pub high_usn: i64,
    pub min_major_version: u16,
    pub max_major_version: u16,
}

/// What can go wrong between the journal and its reader.
#[derive(Debug, Clone, Copy, PartialEq, Eq, Structural)]
pub enum JournalError {
    /// The reply to a query does not have the size of one.
    InvalidQuerySize,
    /// The buffer for the replies is smaller than what is asked for.
    ScratchTooSmall { required: u64, provided: usize },
    /// The journal claims to have sent more than the buffer holds.
    InvalidReplySize,
    /// The range starts before the first record that the journal still has.
    StartsTooEarly { start: i64, first_usn: i64 },
    /// The reply is no list of records.
    Format(JournalFormatError),
}

/// What the first `received` bytes of `buffer` say.
pub open spec fn received_reply(buffer: Seq<u8>, received: u32) -> Result<
    (int, Seq<UsnRecordModel>),
    JournalError,
> {
    if received > buffer.len() {
        Err(JournalError::InvalidReplySize)
    } else {
        match journal_reply(buffer.take(received as int)) {
            Ok(reply) => Ok(reply),
            Err(e) => Err(JournalError::Format(e)),
        }
    }
}

/// A reply and what it was found to say.
pub open spec fn is_reply(
    r: Result<(i64, Vec<UsnRecord>), JournalError>,
    reply: Result<(int, Seq<UsnRecordModel>), JournalError>,
) -> bool {
    match r {
        Ok((next, records)) => reply is Ok && reply->Ok_0.0 == next && reply->Ok_0.1
            == record_views(records@),
        Err(e) => reply is Err && reply->Err_0 == e,
    }
}

fn parse_received(buffer: &[u8], received: u32) -> (r: Result<(i64, Vec<UsnRecord>), JournalError>)
    ensures
        is_reply(r, received_reply(buffer@, received)),
{
    assert(buffer@.len() == buffer.len());
    if received as usize > buffer.len() {
        return Err(JournalError::InvalidReplySize);
    }
    let data: &[u8] = slice_subrange(buffer, 0, received as usize);
    assert(data@ =~= buffer@.take(received as int));
    match parse_records(data) {
        Ok(reply) => Ok(reply),
        Err(e) => Err(JournalError::Format(e)),
    }
}

impl Usn {
    /// The volume with the letter `letter`.
    pub fn from_letter(letter: char) -> (r: Result<Usn, VolumeError>)
        ensures
            opens(letter_device(letter), r),
    {
        let mut text: String = String::new();
        text.push(letter);
        assert(text@.drop_last() =~= Seq::<char>::empty());
        let name: Vec<u16> = encode_utf16(text.as_str());
        assert(name@ =~= utf16_char(letter)) by {
            reveal_with_fuel(utf16, 2);
            assert(text@.last() == letter);
        }
        let mut device: Vec<u16> = vec![SEPARATOR, SEPARATOR, DOT, SEPARATOR];
        append_units(&mut device, &name);
        device.push(COLON);
        assert(device@ =~= letter_device(letter));
        Self::new(device)
    }

    /// The volume whose root is `path`.
    pub fn from_path(path: &WinPath) -> (r: Result<Usn, VolumeError>)
        ensures
            match path_device(path@) {
                Some(device) => opens(device, r),
                None => r matches Err(VolumeError::InvalidPath),
            },
    {
        let len: usize = path.components.len();
        if len == 0 || len > 2 {
            return Err(VolumeError::InvalidPath);
        }
        assert(path@[0] == path.components@[0]@);
        if len == 2 {
            assert(path@[1] == path.components@[1]@);
            match &path.components[1] {
                PathComponent::RootDir => {},
                _ => {
                    return Err(VolumeError::InvalidPath);
                },
            }
        }
        match &path.components[0] {
            PathComponent::Prefix(prefix) => match prefix.kind() {
                PrefixKind::Disk(letter) => {
                    let upper: u8 = if 0x61 <= *letter && *letter <= 0x7a {
                        *letter - 0x20
                    } else {
                        *letter
                    };
                    Self::from_letter(upper as char)
                },
                PrefixKind::Unc(server, share) => {
                    let server_text: String = String::from_utf16_lossy(server.as_slice());
                    let share_text: String = String::from_utf16_lossy(share.as_slice());
                    let mut device: Vec<u16> = vec![
                        SEPARATOR,
                        SEPARATOR,
                        QUESTION_MARK,
                        SEPARATOR,
                        0x55,
                        0x4e,
                        0x43,
                        SEPARATOR,
                    ];
                    append_units(&mut device, &encode_utf16(server_text.as_str()));
                    device.push(SEPARATOR);
                    append_units(&mut device, &encode_utf16(share_text.as_str()));
                    assert(device@ =~= verbatim_start() + unc_start() + displayed(server@) + seq![SEPARATOR]
                        + displayed(share@));
                    Self::new(device)
                },
                _ => Self::new(copy_units(prefix.text())),
            },
            PathComponent::RootDir => if len == 1 {
                Self::from_letter('C')
            } else {
                Err(VolumeError::InvalidPath)
            },
            _ => Err(VolumeError::InvalidPath),
        }
    }

    /// The device `path`.
    pub fn new(path: Vec<u16>) -> (r: Result<Usn, VolumeError>)
        ensures
            opens(path@, r),
    {
        match wide_c_string(path) {
            Ok(device) => Ok(Usn { device }),
            Err(ContainsNul { position }) => Err(VolumeError::ContainsNul { position }),
        }
    }

    /// Takes the reply to a query of the journal apart.
    pub fn query_journal(reply: &[u8]) -> (r: Result<UsnJournalData, JournalError>)
        ensures
            match r {
                Ok(data) => reply@.len() == JOURNAL_DATA_SIZE && data == journal_data(reply@),
                Err(e) => reply@.len() != JOURNAL_DATA_SIZE && e == JournalError::InvalidQuerySize,
            },
    {
        assert(reply@.len() == reply.len());
        if reply.len() != JOURNAL_DATA_SIZE {
            return Err(JournalError::InvalidQuerySize);
        }
        Ok(
            UsnJournalData {
                usn_journal_id: read_u64(reply, 0),
                first_usn: read_i64(reply, 8),
                next_usn: read_i64(reply, 16),
                lowest_valid_usn: read_i64(reply, 24),
                max_usn: read_i64(reply, 32),
                maximum_size: read_u64(reply, 40),
                allocation_delta: read_u64(reply, 48),
                min_supported_major_version: read_u16(reply, 56),
                max_supported_major_version: read_u16(reply, 58),
                flags: read_u32(reply, 60),
                range_track_chunk_size: read_u64(reply, 64),
                range_track_file_size_threshold: read_i64(reply, 72),
            },
        )
    }

    /// The size of the part of a buffer of `provided` bytes that takes the reply
    /// to `input`.
    pub fn reply_size(input: &ReadUsnJournalData, provided: usize) -> (r: Result<
        usize,
        JournalError,
    >)
        ensures
            match r {
                Ok(size) => size == input.bytes_to_wait_for && size <= provided,
                Err(e) => provided < input.bytes_to_wait_for && e == (
                JournalError::ScratchTooSmall { required: input.bytes_to_wait_for, provided }),
            },
    {
        if (provided as u64) < input.bytes_to_wait_for {
            return Err(
                JournalError::ScratchTooSmall { required: input.bytes_to_wait_for, provided },
            );
        }
        Ok(input.bytes_to_wait_for as usize)
    }

    /// Takes the reply to `input` apart: the first `bytes_received` bytes of the
    /// part of `scratch` that was set aside for it.
    pub fn read_journal(input: &ReadUsnJournalData, scratch: &[u8], bytes_received: u32) -> (r:
        Result<(i64, Vec<UsnRecord>), JournalError>)
        ensures
            scratch@.len() < input.bytes_to_wait_for ==> r is Err && r->Err_0 == (
            JournalError::ScratchTooSmall {
                required: input.bytes_to_wait_for,
                provided: scratch@.len() as usize,
            }),
            scratch@.len() >= input.bytes_to_wait_for ==> is_reply(
                r,
                received_reply(scratch@.take(input.bytes_to_wait_for as int), bytes_received),
            ),
    {
        assert(scratch@.len() == scratch.len());
        match Self::reply_size(input, scratch.len()) {
            Ok(size) => {
                let data: &[u8] = slice_subrange(scratch, 0, size);
                assert(data@ =~= scratch@.take(size as int));
                parse_received(data, bytes_received)
            },
            Err(e) => Err(e),
        }
    }

    /// Takes the reply to a listing of the file table apart: the first
    /// `bytes_received` bytes of `scratch`.
    pub fn enum_journal(scratch: &[u8], bytes_received: u32) -> (r: Result<
        (i64, Vec<UsnRecord>),
        JournalError,
    >)
        ensures
            is_reply(r, received_reply(scratch@, bytes_received)),
    {
        parse_received(scratch, bytes_received)
    }

    /// Prepares to read the records of `range`, as far as the journal has them.
    pub fn read_range(query: &UsnJournalData, range: Range<i64>, reason_mask: u32) -> (r: Result<
        RangeRead,
        JournalError,
    >)
        ensures
            match r {
                Ok(reading) => range.start >= query.first_usn && reading@ == fresh_range(
                    *query,
                    range.start,
                    range.end,
                    reason_mask,
                ),
                Err(e) => range.start < query.first_usn && e == (JournalError::StartsTooEarly {
                    start: range.start,
                    first_usn: query.first_usn,
                }),
            },
    {
        let start: i64 = range.start;
        let end: i64 = range.end;
        if start < query.first_usn {
            return Err(JournalError::StartsTooEarly { start, first_usn: query.first_usn });
        }
        let reading: RangeRead = RangeRead {
            input: ReadUsnJournalData {
                start_usn: start,
                reason_mask,
                return_only_on_close: 0,
                timeout: 0,
                bytes_to_wait_for: SCRATCH_SIZE as u64,
                usn_journal_id: query.usn_journal_id,
                min_major_version: if query.min_supported_major_version > 2 {
                    query.min_supported_major_version
                } else {
                    2
                },
                max_major_version: if query.max_supported_major_version < 4 {
                    query.max_supported_major_version
                } else {
                    4
                },
            },
            end: if end < query.next_usn {
                end
            } else {
                query.next_usn
            },
            records: Vec::new(),
            finished: false,
        };
        assert(record_views(reading.records@) =~= Seq::<UsnRecordModel>::empty());
        Ok(reading)
    }

    /// Prepares to list the files whose last record lies in `range`.
    pub fn enum_range(range: Range<i64>) -> (r: EnumRead)
        ensures
            r@ == (EnumModel {
                input: MftEnumData {
                    start_file_reference_number: 0,
                    low_usn: range.start,
                    high_usn: range.end,
                    min_major_version: 2,
                    max_major_version: 4,
                },
                records: Seq::empty(),
                finished: false,
            }),
    {
        let reading: EnumRead = EnumRead {
            input: MftEnumData {
                start_file_reference_number: 0,
                low_usn: range.start,
                high_usn: range.end,
                min_major_version: 2,
                max_major_version: 4,
            },
            records: Vec::new(),
            finished: false,
        };
        assert(record_views(reading.records@) =~= Seq::<UsnRecordModel>::empty());
        reading
    }
}

/// How far the reading of a range has come.
#[derive(Debug)]
pub struct RangeRead {
    pub input: ReadUsnJournalData,
    pub end: i64,
    pub records: Vec<UsnRecord>,
    pub finished: bool,
}

pub struct RangeModel {
    pub input: ReadUsnJournalData,
    pub end: i64,
    pub records: Seq<UsnRecordModel>,
    pub finished: bool,
}

impl View for RangeRead {
    type V = RangeModel;

    open spec fn view(&self) -> RangeModel {
        RangeModel {
            input: self.input,
            end: self.end,
            records: record_views(self.records@),
            finished: self.finished,
        }
    }
}

/// The reading of a range at its start. Versions from 2 to 4 are asked for, as
/// far as the journal has them.
pub open spec fn fresh_range(
    query: UsnJournalData,
    start: i64,
    end: i64,
    reason_mask: u32,
) -> RangeModel {
    RangeModel {
        input: ReadUsnJournalData {
            start_usn: start,
            reason_mask,
            return_only_on_close: 0,
            timeout: 0,
            bytes_to_wait_for: SCRATCH_SIZE as u64,
            usn_journal_id: query.usn_journal_id,
            min_major_version: if query.min_supported_major_version > 2 {
                query.min_supported_major_version
            } else {
                2
            },
            max_major_version: if query.max_supported_major_version < 4 {
                query.max_supported_major_version
            } else {
                4
            },
        },
        end: if end < query.next_usn {
            end
        } else {
            query.next_usn
        },
        records: Seq::empty(),
        finished: false,
    }
}

/// Those of `records` that come before the record `end`.
pub open spec fn records_before(records: Seq<UsnRecordModel>, end: i64) -> Seq<UsnRecordModel>
    decreases records.len(),
{
    if records.len() == 0 {
        Seq::empty()
    } else {
        let front = records_before(records.drop_last(), end);
        if records.last().usn() < end {
            front.push(records.last())
        } else {
            front
        }
    }
}

impl RangeModel {
    /// There is more to ask the journal for.
    pub open spec fn goes_on(self) -> bool {
        !self.finished && self.input.start_usn < self.end
    }

    /// The reading after one more reply.
    pub open spec fn advanced(self, next_usn: i64, records: Seq<UsnRecordModel>) -> RangeModel {
        if next_usn > self.end {
            RangeModel {
                records: self.records + records_before(records, self.end),
                finished: true,
                ..self
            }
        } else {
            RangeModel {
                records: self.records + records,
                input: ReadUsnJournalData { start_usn: next_usn, ..self.input },
                ..self
            }
        }
    }
}

fn usn_of(record: &UsnRecord) -> (r: i64)
    ensures
        r == record@.usn(),
{
    match record {
        UsnRecord::V2 { record, .. } => record.usn,
        UsnRecord::V3 { record, .. } => record.usn,
        UsnRecord::V4 { record, .. } => record.usn,
    }
}

impl RangeRead {
    /// What to ask the journal for next.
    pub fn next_request(&self) -> (r: Option<ReadUsnJournalData>)
        ensures
            r == (if self@.goes_on() {
                Some(self.input)
            } else {
                None
            }),
    {
        if !self.finished && self.input.start_usn < self.end {
            Some(self.input)
        } else {
            None
        }
    }

    /// Takes in the reply to the last request: the first `bytes_received` bytes
    /// of the part of `scratch` that was set aside for it.
    pub fn advance(&mut self, scratch: &[u8], bytes_received: u32) -> (r: Result<(), JournalError>)
        ensures
            scratch@.len() < old(self).input.bytes_to_wait_for ==> r is Err && r->Err_0 == (
            JournalError::ScratchTooSmall {
                required: old(self).input.bytes_to_wait_for,
                provided: scratch@.len() as usize,
            }) && final(self)@ == old(self)@,
            scratch@.len() >= old(self).input.bytes_to_wait_for ==> {
                let reply = received_reply(
                    scratch@.take(old(self).input.bytes_to_wait_for as int),
                    bytes_received,
                );
                match r {
                    Ok(_) => reply is Ok && final(self)@ == old(self)@.advanced(
                        reply->Ok_0.0 as i64,
                        reply->Ok_0.1,
                    ),
                    Err(e) => reply is Err && reply->Err_0 == e && final(self)@ == old(self)@,
                }
            },
    {
        match Usn::read_journal(&self.input, scratch, bytes_received) {
            Ok((next_usn, records)) => {
                self.accept(next_usn, records);
                Ok(())
            },
            Err(e) => Err(e),
        }
    }

    /// Takes in a reply: the number of the next record and the records.
    pub fn accept(&mut self, next_usn: i64, records: Vec<UsnRecord>)
        ensures
            final(self)@ == old(self)@.advanced(next_usn, record_views(records@)),
    {
        let ghost before = self@;
        let ghost views = record_views(records@);
        let past_end: bool = next_usn > self.end;
        let end: i64 = self.end;
        let mut taken: Vec<UsnRecord> = Vec::new();
        std::mem::swap(&mut taken, &mut self.records);
        for record in it: records
            invariant
                it.seq() == records@,
                views == record_views(records@),
                past_end ==> record_views(taken@) == before.records + records_before(
                    views.take(it.index()),
                    end,
                ),
                !past_end ==> record_views(taken@) == before.records + views.take(it.index()),
        {
            let ghost model = record@;
            let ghost held = taken@;
            let ghost index = it.index();
            proof {
                assert(views.take(index + 1).drop_last() =~= views.take(index));
                assert(views[index] == model);
                assert(views.take(index + 1) =~= views.take(index).push(model));
            }
            if !past_end || usn_of(&record) < end {
                taken.push(record);
                assert(record_views(taken@) =~= record_views(held).push(model));
            }
        }
        assert(views.take(views.len() as int) =~= views);
        self.records = taken;
        if past_end {
            self.finished = true;
        } else {
            self.input = ReadUsnJournalData { start_usn: next_usn, ..self.input };
        }
    }
}

/// How far the listing of the file table has come.
#[derive(Debug)]
pub struct EnumRead {
    pub input: MftEnumData,
    pub records: Vec<UsnRecord>,
    pub finished: bool,
}

pub struct EnumModel {
    pub input: MftEnumData,
    pub records: Seq<UsnRecordModel>,
    pub finished: bool,
}

impl View for EnumRead {
    type V = EnumModel;

    open spec fn view(&self) -> EnumModel {
        EnumModel {
            input: self.input,
            records: record_views(self.records@),
            finished: self.finished,
        }
    }
}

impl EnumModel {
    /// The listing after one more reply: a reply without records ends it.
    pub open spec fn advanced(self, next_number: i64, records: Seq<UsnRecordModel>) -> EnumModel {
        if records.len() == 0 {
            EnumModel { finished: true, ..self }
        } else {
            EnumModel {
                records: self.records + records,
                input: MftEnumData {
                    start_file_reference_number: next_number as u64,
                    ..self.input
                },
                ..self
            }
        }
    }
}

impl EnumRead {
    /// What to ask for next.
    pub fn next_request(&self) -> (r: Option<MftEnumData>)
        ensures
            r == (if self.finished {
                None
            } else {
                Some(self.input)
            }),
    {
        if self.finished {
            None
        } else {
            Some(self.input)
        }
    }

    /// Takes in that the end of the file table was reached.
    pub fn end_of_table(&mut self)
        ensures
            final(self)@ == (EnumModel { finished: true, ..old(self)@ }),
    {
        self.finished = true;
    }

    /// Takes in the reply to the last request: the first `bytes_received` bytes
    /// of `scratch`.
    pub fn advance(&mut self, scratch: &[u8], bytes_received: u32) -> (r: Result<(), JournalError>)
        ensures
            match r {
                Ok(_) => received_reply(scratch@, bytes_received) is Ok && final(self)@ == old(
                    self,
                )@.advanced(
                    received_reply(scratch@, bytes_received)->Ok_0.0 as i64,
                    received_reply(scratch@, bytes_received)->Ok_0.1,
                ),
                Err(e) => received_reply(scratch@, bytes_received) is Err && received_reply(
                    scratch@,
                    bytes_received,
                )->Err_0 == e && final(self)@ == old(self)@,
            },
    {
        match Usn::enum_journal(scratch, bytes_received) {
            Ok((next_number, records)) => {
                let ghost before = self@;
                let ghost views = record_views(records@);
                if records.is_empty() {
                    self.finished = true;
                } else {
                    let mut taken: Vec<UsnRecord> = Vec::new();
                    std::mem::swap(&mut taken, &mut self.records);
                    let mut more: Vec<UsnRecord> = records;
                    taken.append(&mut more);
                    assert(record_views(taken@) =~= before.records + views);
                    self.records = taken;
                    self.input = MftEnumData {
                        start_file_reference_number: next_number as u64,
                        ..self.input
                    };
                }
                Ok(())
            },
            Err(e) => Err(e),
        }
    }
}

/// The number by which the file system knows a file.
#[derive(Debug, Clone, Copy, PartialEq, Eq, Structural)]
pub enum FileId {
    Short(i64),
    Long(u128),
}

impl ChangeKey for FileId {
    type Key = FileId;

    open spec fn key(&self) -> FileId {
        *self
    }

    fn same_key(&self, other: &Self) -> (r: bool) {
        *self == *other
    }
}

/// What the reasons of a record tell of the file.
pub open spec fn reported(reason: u32) -> ItemMetadata {
    ItemMetadata {
        created: reason & CREATION_MASK != 0,
        deleted: reason & DELETION_MASK != 0,
        modified: reason & MODIFICATION_MASK != 0,
        renamed: reason & RENAMING_MASK != 0,
    }
}

/// The file that a record names, and the reasons of the record. A record of
/// version 4 names no file.
pub open spec fn named_file(record: UsnRecordModel) -> Option<(FileId, Seq<u16>, u32)> {
    match record {
        UsnRecordModel::V2 { record, filename } => Some(
            (FileId::Short(record.file_reference_number as i64), filename, record.reason),
        ),
        UsnRecordModel::V3 { record, filename } => Some(
            (FileId::Long(record.file_reference_number), filename, record.reason),
        ),
        UsnRecordModel::V4 { .. } => None,
    }
}

fn into_named_file(record: UsnRecord) -> (r: Option<(FileId, Vec<u16>, u32)>)
    ensures
        match r {
            Some((id, filename, reason)) => named_file(record@) == Some((id, filename@, reason)),
            None => named_file(record@) is None,
        },
{
    match record {
        UsnRecord::V2 { record, filename } => Some(
            (FileId::Short(record.file_reference_number as i64), filename, record.reason),
        ),
        UsnRecord::V3 { record, filename } => Some(
            (FileId::Long(record.file_reference_number), filename, record.reason),
        ),
        UsnRecord::V4 { .. } => None,
    }
}

/// The record tells of a change that the options ask to track.
pub open spec fn counts(options: MonitorOptions, record: UsnRecordModel) -> bool {
    match named_file(record) {
        Some((_, _, reason)) => wanted(options, reported(reason)) != untouched() && reason
            & EXCLUDE_MASK == 0,
        None => false,
    }
}

/// `changes` after one more record: the file takes the name that the record
/// gives it, and what is known of it is joined by what the record tells.
pub open spec fn after_record(
    options: MonitorOptions,
    changes: Map<FileId, (Seq<u16>, ItemMetadata)>,
    record: UsnRecordModel,
) -> Map<FileId, (Seq<u16>, ItemMetadata)> {
    if counts(options, record) {
        let (id, name, reason) = named_file(record)->0;
        let known = if changes.dom().contains(id) {
            changes[id].1
        } else {
            untouched()
        };
        changes.insert(id, (name, merged(known, wanted(options, reported(reason)))))
    } else {
        changes
    }
}

/// The files that `records` tell of, with the last name of each and what the
/// records tell of it.
pub open spec fn file_changes(options: MonitorOptions, records: Seq<UsnRecordModel>) -> Map<
    FileId,
    (Seq<u16>, ItemMetadata),
>
    decreases records.len(),
{
    if records.len() == 0 {
        Map::empty()
    } else {
        after_record(options, file_changes(options, records.drop_last()), records.last())
    }
}

/// Names seen as sequences.
pub open spec fn name_views(changes: Map<FileId, (Vec<u16>, ItemMetadata)>) -> Map<
    FileId,
    (Seq<u16>, ItemMetadata),
> {
    changes.map_values(|change: (Vec<u16>, ItemMetadata)| (change.0@, change.1))
}

/// What the file system says of the path of a file.
#[derive(Debug)]
pub enum FileLookup {
    /// The file is there.
    Found(WinPath),
    /// The system answers with an error instead. The name of the last record,
    /// read alone, stands for `reading`.
    Lost { code: i32, reading: WinPath },
}

pub enum LookupModel {
    Found(Seq<ComponentModel>),
    Lost { code: i32, reading: Seq<ComponentModel> },
}

impl View for FileLookup {
    type V = LookupModel;

    open spec fn view(&self) -> LookupModel {
        match *self {
            FileLookup::Found(path) => LookupModel::Found(path@),
            FileLookup::Lost { code, reading } => LookupModel::Lost { code, reading: reading@ },
        }
    }
}

/// The name of the folder under which a file without a path is listed.
pub open spec fn error_folder(code: i32) -> Seq<u16> {
    seq![0x30, 0x78] + utf16(hex_text(code as u32 as nat))
}

/// The path under which a file is listed. A file without a path is listed by its
/// name in a folder named after the error, unless the name is a path of its own.
pub open spec fn listed_path(lookup: LookupModel) -> Seq<ComponentModel> {
    match lookup {
        LookupModel::Found(path) => path,
        LookupModel::Lost { code, reading } => joined(
            seq![ComponentModel::Normal(error_folder(code))],
            reading,
        ),
    }
}

/// `lookups` can be what the file system says of the files of `changes`: where a
/// file is lost, the reading is one of the name that its last record gives.
pub open spec fn are_lookups(
    lookups: Seq<FileLookup>,
    changes: Seq<(FileId, (Vec<u16>, ItemMetadata))>,
) -> bool {
    &&& lookups.len() == changes.len()
    &&& forall|i: int|
        0 <= i < lookups.len() ==> ((#[trigger] lookups[i])@ matches LookupModel::Lost {
            reading,
            ..
        } ==> is_reading(ComponentModel::Normal((changes[i].1).0@), reading))
}

/// The files with what is known of each, under the paths that were found for
/// them. Of two files with the same path the later one counts.
pub open spec fn listed_files(
    changes: Seq<(FileId, (Vec<u16>, ItemMetadata))>,
    lookups: Seq<FileLookup>,
) -> Map<Seq<ComponentModel>, ItemMetadata>
    decreases changes.len(),
{
    if changes.len() == 0 || lookups.len() != changes.len() {
        Map::empty()
    } else {
        listed_files(changes.drop_last(), lookups.drop_last()).insert(
            path_key(listed_path(lookups.last()@)),
            (changes.last().1).1,
        )
    }
}

/// `paths` are those under which the files of `lookups` are listed.
pub open spec fn listed_paths(paths: Seq<WinPath>, lookups: Seq<FileLookup>) -> bool {
    &&& paths.len() == lookups.len()
    &&& forall|k: int| 0 <= k < paths.len() ==> (#[trigger] paths[k])@ == listed_path(lookups[k]@)
}

/// What is known of each of the files.
pub open spec fn change_metas(changes: Seq<(FileId, (Vec<u16>, ItemMetadata))>) -> Seq<
    (FileId, ItemMetadata),
> {
    changes.map_values(|change: (FileId, (Vec<u16>, ItemMetadata))| (change.0, (change.1).1))
}

/// Why a name that the system sent cannot be read.
#[derive(Debug, Clone, Copy, PartialEq, Eq, Structural)]
pub enum NameInfoError {
    /// The name is longer than the buffer.
    BufferTooSmall,
    /// The name holds half a unit.
    OddNameLength,
}

/// Takes the information that the system has of a file's name apart: the number
/// of bytes, then the name.
pub fn parse_name_info(buffer: &[u8]) -> (r: Result<Vec<u16>, NameInfoError>)
    requires
        buffer@.len() >= 4,
    ensures
        ({
            let length = field(buffer@, 0, 4) as int;
            match r {
                Ok(name) => 4 + length <= buffer@.len() && length % 2 == 0 && name@ == le_units(
                    buffer@.subrange(4, 4 + length),
                ),
                Err(NameInfoError::BufferTooSmall) => 4 + length > buffer@.len(),
                Err(NameInfoError::OddNameLength) => 4 + length <= buffer@.len() && length % 2 != 0,
            }
        }),
{
    assert(buffer@.len() == buffer.len());
    let length: u32 = read_u32(buffer, 0);
    if length as u64 + 4 > buffer.len() as u64 {
        return Err(NameInfoError::BufferTooSmall);
    }
    if length % 2 != 0 {
        return Err(NameInfoError::OddNameLength);
    }
    Ok(read_units(buffer, 4, length as usize))
}

/// Why the monitor cannot do what it is asked to.
#[derive(Debug, Clone, Copy, PartialEq, Eq, Structural)]
pub enum UsnMonitorError {
    NotStarted,
    AlreadyStopped,
    NotStopped,
}

/// Finds changed files by the records that the journal gathers between the
/// start and the stop of the monitor.
#[derive(Debug)]
pub struct UsnMonitor {
    pub usn: Usn,
    pub initial_usn: Option<i64>,
    pub end_usn: Option<i64>,
    pub options: MonitorOptions,
}

impl UsnMonitor {
    /// A monitor for the volume of the options. All changes on the volume are
    /// followed, whichever process makes them.
    pub fn new(options: MonitorOptions, _track_options: TrackOptions) -> (r: Result<
        UsnMonitor,
        VolumeError,
    >)
        ensures
            match path_device(options.path.path@) {
                Some(device) => match r {
                    Ok(monitor) => opens(device, Ok(monitor.usn)) && monitor.initial_usn is None
                        && monitor.end_usn is None && monitor.options == options,
                    Err(e) => opens(device, Err(e)),
                },
                None => r matches Err(VolumeError::InvalidPath),
            },
    {
        match Usn::from_path(&options.path.path) {
            Ok(usn) => Ok(UsnMonitor { usn, initial_usn: None, end_usn: None, options }),
            Err(e) => Err(e),
        }
    }

    /// Starts to follow the journal, whose state is `query`.
    pub fn start(&mut self, query: &UsnJournalData)
        ensures
            *final(self) == (UsnMonitor {
                initial_usn: Some(query.next_usn),
                end_usn: None,
                ..*old(self)
            }),
    {
        self.initial_usn = Some(query.next_usn);
        self.end_usn = None;
    }

    /// Tells whether the monitor can be stopped.
    pub fn check_running(&self) -> (r: Result<(), UsnMonitorError>)
        ensures
            r == (if self.initial_usn is None {
                Err::<(), UsnMonitorError>(UsnMonitorError::NotStarted)
            } else if self.end_usn is Some {
                Err::<(), UsnMonitorError>(UsnMonitorError::AlreadyStopped)
            } else {
                Ok::<(), UsnMonitorError>(())
            }),
    {
        if self.initial_usn.is_none() {
            return Err(UsnMonitorError::NotStarted);
        }
        if self.end_usn.is_some() {
            return Err(UsnMonitorError::AlreadyStopped);
        }
        Ok(())
    }

    /// Stops following the journal, whose state is `query`.
    pub fn stop(&mut self, query: &UsnJournalData) -> (r: Result<(), UsnMonitorError>)
        ensures
            match r {
                Ok(_) => old(self).initial_usn is Some && old(self).end_usn is None && *final(self)
                    == (UsnMonitor { end_usn: Some(query.next_usn), ..*old(self) }),
                Err(UsnMonitorError::NotStarted) => old(self).initial_usn is None && *final(self)
                    == *old(self),
                Err(UsnMonitorError::AlreadyStopped) => old(self).initial_usn is Some && old(
                    self,
                ).end_usn is Some && *final(self) == *old(self),
                Err(UsnMonitorError::NotStopped) => false,
            },
    {
        match self.check_running() {
            Ok(_) => {
                self.end_usn = Some(query.next_usn);
                Ok(())
            },
            Err(e) => Err(e),
        }
    }

    /// The records between the start and the stop of the monitor.
    pub fn range(&self) -> (r: Result<(i64, i64), UsnMonitorError>)
        ensures
            match r {
                Ok((start, end)) => self.initial_usn == Some(start) && self.end_usn == Some(end),
                Err(UsnMonitorError::NotStarted) => self.initial_usn is None,
                Err(UsnMonitorError::NotStopped) => self.initial_usn is Some
                    && self.end_usn is None,
                Err(UsnMonitorError::AlreadyStopped) => false,
            },
    {
        match (self.initial_usn, self.end_usn) {
            (None, _) => Err(UsnMonitorError::NotStarted),
            (Some(_), None) => Err(UsnMonitorError::NotStopped),
            (Some(start), Some(end)) => Ok((start, end)),
        }
    }

    /// What the reasons of a record tell of the file, as far as it is to be
    /// tracked.
    pub fn get_meta(&self, reason: u32) -> (r: ItemMetadata)
        ensures
            r == wanted(self.options, reported(reason)),
    {
        ItemMetadata::default().create(
            (reason & CREATION_MASK) != 0 && self.options.creation,
        ).delete((reason & DELETION_MASK) != 0 && self.options.deletion).modify(
            (reason & MODIFICATION_MASK) != 0 && self.options.modification,
        ).rename((reason & RENAMING_MASK) != 0 && self.options.renaming)
    }

    /// Gathers what `records` tell of each file.
    pub fn gather(&self, records: Vec<UsnRecord>) -> (r: ItemMap<FileId, (Vec<u16>, ItemMetadata)>)
        ensures
            name_views(r@) == file_changes(self.options, record_views(records@)),
    {
        let ghost views = record_views(records@);
        let mut changes: ItemMap<FileId, (Vec<u16>, ItemMetadata)> = ItemMap::new();
        assert(name_views(changes@) =~= file_changes(self.options, views.take(0)));
        for record in it: records
            invariant
                it.seq() == records@,
                views == record_views(records@),
                name_views(changes@) == file_changes(self.options, views.take(it.index())),
        {
            let ghost model = record@;
            proof {
                let index = it.index();
                assert(views.take(index + 1).drop_last() =~= views.take(index));
                assert(views.take(index + 1).last() == model);
            }
            if let Some((id, filename, reason)) = into_named_file(record) {
                let metadata: ItemMetadata = self.get_meta(reason);
                if !metadata.is_empty() && reason & EXCLUDE_MASK == 0 {
                    let mut known: ItemMetadata = match changes.get(&id) {
                        Some(change) => change.1,
                        None => ItemMetadata::default(),
                    };
                    known.merge(&metadata);
                    let ghost before = changes@;
                    let ghost name = filename@;
                    changes.insert(id, (filename, known));
                    assert(name_views(changes@) =~= name_views(before).insert(id, (name, known)));
                }
            }
        }
        assert(views.take(views.len() as int) =~= views);
        changes
    }

    /// Lists the changed files under the paths that the file system gave for
    /// them, one for each of `changes`.
    pub fn get_changed_files(
        &self,
        changes: &Vec<(FileId, (Vec<u16>, ItemMetadata))>,
        lookups: &Vec<FileLookup>,
    ) -> (r: Result<ChangeMap<WinPath>, UsnMonitorError>)
        requires
            are_lookups(lookups@, changes@),
        ensures
            match r {
                Ok(files) => {
                    &&& self.initial_usn is Some
                    &&& self.end_usn is Some
                    &&& files@ == listed_files(changes@, lookups@)
                    &&& exists|paths: Seq<WinPath>| #[trigger]
                        listed_paths(paths, lookups@) && files.listed() == inserted_all(
                            with_names(change_metas(changes@), paths),
                        )
                    &&& forall|e: int|
                        0 <= e < files.listed().len() ==> exists|k: int|
                            0 <= k < lookups@.len() && (#[trigger] files.listed()[e]).0@
                                == listed_path((#[trigger] lookups@[k])@)
                },
                Err(UsnMonitorError::NotStarted) => self.initial_usn is None,
                Err(UsnMonitorError::NotStopped) => self.initial_usn is Some
                    && self.end_usn is None,
                Err(UsnMonitorError::AlreadyStopped) => false,
            },
    {
        if let Err(e) = self.range() {
            return Err(e);
        }
        let ghost metas = change_metas(changes@);
        let ghost mut paths: Seq<WinPath> = Seq::empty();
        let mut files: ChangeMap<WinPath> = ItemMap::new();
        assert(with_names(metas, paths) =~= Seq::empty());
        for i in 0..changes.len()
            invariant
                lookups@.len() == changes@.len(),
                metas == change_metas(changes@),
                files@ == listed_files(changes@.take(i as int), lookups@.take(i as int)),
                paths.len() == i,
                forall|k: int|
                    0 <= k < i ==> (#[trigger] paths[k])@ == listed_path(lookups@[k]@),
                files.listed() == inserted_all(with_names(metas, paths)),
        {
            let path: WinPath = lookups[i].to_path();
            proof {
                assert(changes@.take(i + 1).drop_last() =~= changes@.take(i as int));
                assert(lookups@.take(i + 1).drop_last() =~= lookups@.take(i as int));
                let before = paths;
                paths = before.push(path);
                assert(with_names(metas, paths).drop_last() =~= with_names(metas, before));
            }
            files.insert(path, changes[i].1.1);
        }
        proof {
            assert(changes@.take(changes@.len() as int) =~= changes@);
            assert(lookups@.take(lookups@.len() as int) =~= lookups@);
            assert(listed_paths(paths, lookups@));
            assert forall|e: int| 0 <= e < files.listed().len() implies exists|k: int|
                0 <= k < lookups@.len() && (#[trigger] files.listed()[e]).0@ == listed_path(
                    (#[trigger] lookups@[k])@,
                ) by {
                let k = inserted_names_are_kept(with_names(metas, paths), e);
                assert(paths[k]@ == listed_path(lookups@[k]@));
            }
        }
        Ok(files)
    }
}

impl FileLookup {
    /// The path under which the file is listed.
    pub fn to_path(&self) -> (r: WinPath)
        ensures
            r@ == listed_path(self@),
    {
        match self {
            FileLookup::Found(path) => path.clone(),
            FileLookup::Lost { code, reading } => {
                let mut folder: Vec<u16> = vec![0x30, 0x78];
                let digits: String = to_hex(*code as u32);
                append_units(&mut folder, &encode_utf16(digits.as_str()));
                assert(folder@ =~= error_folder(*code));
                let base: WinPath = WinPath { components: vec![PathComponent::Normal(folder)] };
                assert(base@ =~= seq![ComponentModel::Normal(error_folder(*code))]);
                base.join_path(reading)
            },
        }
    }
}

/// The records of `journal` from the record `from` up to the record `to`.
pub open spec fn window(journal: Seq<UsnRecordModel>, from: int, to: int) -> Seq<UsnRecordModel>
    decreases journal.len(),
{
    if journal.len() == 0 {
        Seq::empty()
    } else {
        let front = window(journal.drop_last(), from, to);
        if from <= journal.last().usn() < to {
            front.push(journal.last())
        } else {
            front
        }
    }
}

/// The records of `journal` follow one another by their numbers.
pub open spec fn in_order(journal: Seq<UsnRecordModel>) -> bool {
    forall|i: int, j: int|
        0 <= i < j < journal.len() ==> (#[trigger] journal[i]).usn() < (#[trigger] journal[j]).usn()
}

/// The reading after the journal has answered every request that comes up with
/// the next of `replies`.
pub open spec fn after_replies(
    reading: RangeModel,
    replies: Seq<(i64, Seq<UsnRecordModel>)>,
) -> RangeModel
    decreases replies.len(),
{
    if replies.len() == 0 || !reading.goes_on() {
        reading
    } else {
        after_replies(reading.advanced(replies[0].0, replies[0].1), replies.drop_first())
    }
}

/// Each of `replies` holds the records of `journal` from the one that was asked
/// for up to the one that the reply names as the next.
pub open spec fn answer_from(
    journal: Seq<UsnRecordModel>,
    reading: RangeModel,
    replies: Seq<(i64, Seq<UsnRecordModel>)>,
) -> bool
    decreases replies.len(),
{
    replies.len() == 0 || !reading.goes_on() || {
        &&& reading.input.start_usn <= replies[0].0
        &&& replies[0].1 == window(journal, reading.input.start_usn as int, replies[0].0 as int)
        &&& answer_from(
            journal,
            reading.advanced(replies[0].0, replies[0].1),
            replies.drop_first(),
        )
    }
}

proof fn lemma_window_above(journal: Seq<UsnRecordModel>, from: int, to: int)
    requires
        forall|i: int| 0 <= i < journal.len() ==> (#[trigger] journal[i]).usn() < from,
    ensures
        window(journal, from, to) == Seq::<UsnRecordModel>::empty(),
    decreases journal.len(),
{
    if journal.len() > 0 {
        let front = journal.drop_last();
        assert forall|i: int| 0 <= i < front.len() implies (#[trigger] front[i]).usn() < from by {
            assert(front[i] == journal[i]);
        }
        lemma_window_above(front, from, to);
        assert(journal.last() == journal[journal.len() - 1]);
    }
}

proof fn lemma_windows_join(journal: Seq<UsnRecordModel>, from: int, at: int, to: int)
    requires
        in_order(journal),
        from <= at <= to,
    ensures
        window(journal, from, at) + window(journal, at, to) == window(journal, from, to),
    decreases journal.len(),
{
    if journal.len() == 0 {
        assert(window(journal, from, at) + window(journal, at, to) =~= window(journal, from, to));
    } else {
        let front = journal.drop_last();
        let last = journal.last();
        assert forall|i: int, j: int| 0 <= i < j < front.len() implies (#[trigger] front[i]).usn()
            < (#[trigger] front[j]).usn() by {
            assert(front[i] == journal[i] && front[j] == journal[j]);
        }
        lemma_windows_join(front, from, at, to);
        if last.usn() < at {
            assert forall|i: int| 0 <= i < front.len() implies (#[trigger] front[i]).usn() < at by {
                assert(front[i] == journal[i]);
                assert(journal[journal.len() - 1] == last);
            }
            lemma_window_above(front, at, to);
        }
        assert(window(journal, from, at) + window(journal, at, to) =~= window(journal, from, to));
    }
}

proof fn lemma_window_cut(journal: Seq<UsnRecordModel>, from: int, end: i64, to: int)
    requires
        end <= to,
    ensures
        records_before(window(journal, from, to), end) == window(journal, from, end as int),
    decreases journal.len(),
{
    if journal.len() > 0 {
        lemma_window_cut(journal.drop_last(), from, end, to);
        if from <= journal.last().usn() < to {
            let front = window(journal.drop_last(), from, to);
            assert(front.push(journal.last()).drop_last() =~= front);
        }
    }
}

proof fn lemma_replies_fill_the_range(
    journal: Seq<UsnRecordModel>,
    from: int,
    reading: RangeModel,
    replies: Seq<(i64, Seq<UsnRecordModel>)>,
)
    requires
        in_order(journal),
        answer_from(journal, reading, replies),
        from <= reading.input.start_usn <= reading.end,
        !reading.finished,
        reading.records == window(journal, from, reading.input.start_usn as int),
        !after_replies(reading, replies).goes_on(),
    ensures
        after_replies(reading, replies).records == window(journal, from, reading.end as int),
    decreases replies.len(),
{
    if replies.len() > 0 && reading.goes_on() {
        let (next, records) = replies[0];
        let start = reading.input.start_usn as int;
        let after = reading.advanced(next, records);
        if next > reading.end {
            lemma_window_cut(journal, start, reading.end, next as int);
            lemma_windows_join(journal, from, start, reading.end as int);
            assert(after_replies(after, replies.drop_first()) == after);
        } else {
            lemma_windows_join(journal, from, start, next as int);
            lemma_replies_fill_the_range(journal, from, after, replies.drop_first());
        }
    }
}

/// Reading a range yields the records of the range, all of them, each once and
/// in order, in however many replies the journal sends them.
pub proof fn reading_a_range_yields_its_records(
    journal: Seq<UsnRecordModel>,
    query: UsnJournalData,
    start: i64,
    end: i64,
    reason_mask: u32,
    replies: Seq<(i64, Seq<UsnRecordModel>)>,
)
    requires
        in_order(journal),
        answer_from(journal, fresh_range(query, start, end, reason_mask), replies),
        !after_replies(fresh_range(query, start, end, reason_mask), replies).goes_on(),
    ensures
        ({
            let last = if end < query.next_usn {
                end
            } else {
                query.next_usn
            };
            after_replies(fresh_range(query, start, end, reason_mask), replies).records == window(
                journal,
                start as int,
                last as int,
            )
        }),
{
    let reading = fresh_range(query, start, end, reason_mask);
    if start <= reading.end {
        lemma_empty_window(journal, start as int, start as int);
        lemma_replies_fill_the_range(journal, start as int, reading, replies);
    } else {
        lemma_empty_window(journal, start as int, reading.end as int);
    }
}

proof fn lemma_empty_window(journal: Seq<UsnRecordModel>, from: int, to: int)
    requires
        to <= from,
    ensures
        window(journal, from, to) == Seq::<UsnRecordModel>::empty(),
    decreases journal.len(),
{
    if journal.len() > 0 {
        lemma_empty_window(journal.drop_last(), from, to);
    }
}

/// The record counts and names the file `id`.
pub open spec fn counts_for(options: MonitorOptions, record: UsnRecordModel, id: FileId) -> bool {
    counts(options, record) && (named_file(record)->0).0 == id
}

/// What a record tells of the file that it names, as far as it is to be tracked.
pub open spec fn told(options: MonitorOptions, record: UsnRecordModel) -> ItemMetadata {
    wanted(options, reported((named_file(record)->0).2))
}

/// A file is known exactly if a record that counts names it. A change is noted
/// of it exactly if one of those records tells of that change, and its name is
/// the one that the last of them gives.
pub proof fn files_are_what_the_records_tell(
    options: MonitorOptions,
    records: Seq<UsnRecordModel>,
    id: FileId,
)
    ensures
        file_changes(options, records).dom().contains(id) <==> exists|i: int|
            0 <= i < records.len() && counts_for(options, #[trigger] records[i], id),
        file_changes(options, records).dom().contains(id) ==> {
            let (name, meta) = file_changes(options, records)[id];
            &&& meta.created <==> exists|i: int|
                0 <= i < records.len() && counts_for(options, #[trigger] records[i], id) && told(
                    options,
                    records[i],
                ).created
            &&& meta.modified <==> exists|i: int|
                0 <= i < records.len() && counts_for(options, #[trigger] records[i], id) && told(
                    options,
                    records[i],
                ).modified
            &&& meta.deleted <==> exists|i: int|
                0 <= i < records.len() && counts_for(options, #[trigger] records[i], id) && told(
                    options,
                    records[i],
                ).deleted
            &&& meta.renamed <==> exists|i: int|
                0 <= i < records.len() && counts_for(options, #[trigger] records[i], id) && told(
                    options,
                    records[i],
                ).renamed
            &&& exists|i: int|
                0 <= i < records.len() && counts_for(options, #[trigger] records[i], id) && (
                named_file(records[i])->0).1 == name && forall|k: int|
                    i < k < records.len() ==> !counts_for(options, #[trigger] records[k], id)
        },
    decreases records.len(),
{
    if records.len() > 0 {
        let front = records.drop_last();
        files_are_what_the_records_tell(options, front, id);
        let last = records.len() - 1;
        assert(records[last] == records.last());
        assert(forall|i: int| 0 <= i < front.len() ==> #[trigger] front[i] == records[i]);
        assert forall|i: int| 0 <= i < records.len() implies i == last || (#[trigger] records[i]
            == front[i] && 0 <= i < front.len()) by {}
        if file_changes(options, records).dom().contains(id) {
            if counts_for(options, records[last], id) {
                assert(file_changes(options, records)[id].0 == (named_file(records[last])->0).1);
            } else {
                let i = choose|i: int|
                    0 <= i < front.len() && counts_for(options, #[trigger] front[i], id) && (
                    named_file(front[i])->0).1 == file_changes(options, front)[id].0 && forall|
                        k: int,
                    |
                        i < k < front.len() ==> !counts_for(options, #[trigger] front[k], id);
                assert(counts_for(options, records[i], id));
                assert forall|k: int| i < k < records.len() implies !counts_for(
                    options,
                    #[trigger] records[k],
                    id,
                ) by {
                    if k < last {
                        assert(!counts_for(options, front[k], id));
                    }
                }
            }
        }
    }
}

/// Nothing is noted of a file but what is to be tracked, and no file is noted
/// without a change.
pub proof fn only_wanted_changes_are_noted(
    options: MonitorOptions,
    records: Seq<UsnRecordModel>,
    id: FileId,
)
    requires
        file_changes(options, records).dom().contains(id),
    ensures
        ({
            let meta = file_changes(options, records)[id].1;
            wanted(options, meta) == meta && meta != untouched()
        }),
    decreases records.len(),
{
    if records.len() > 0 {
        let front = records.drop_last();
        if file_changes(options, front).dom().contains(id) {
            only_wanted_changes_are_noted(options, front, id);
        }
    }
}

/// A lost file with a plain name is listed by the name that its last record gives,
/// in the folder named after the error.
pub proof fn lost_files_are_listed_by_name(
    changes: Seq<(FileId, (Vec<u16>, ItemMetadata))>,
    lookups: Seq<FileLookup>,
    i: int,
)
    requires
        are_lookups(lookups, changes),
        0 <= i < lookups.len(),
        lookups[i]@ is Lost,
        is_plain_name((changes[i].1).0@),
    ensures
        listed_path(lookups[i]@) == seq![
            ComponentModel::Normal(error_folder(lookups[i]@->code)),
            ComponentModel::Normal((changes[i].1).0@),
        ],
{
    assert(listed_path(lookups[i]@) =~= seq![
        ComponentModel::Normal(error_folder(lookups[i]@->code)),
        ComponentModel::Normal((changes[i].1).0@),
    ]);
}

/// Every changed file is listed under the path that was found for it, and
/// nothing else is listed: what is listed under a path is known of a file with
/// that path.
pub proof fn changed_files_are_listed(
    changes: Seq<(FileId, (Vec<u16>, ItemMetadata))>,
    lookups: Seq<FileLookup>,
    path: Seq<ComponentModel>,
)
    requires
        lookups.len() == changes.len(),
    ensures
        listed_files(changes, lookups).dom().contains(path) <==> exists|i: int|
            0 <= i < changes.len() && path_key(listed_path((#[trigger] lookups[i])@)) == path,
        listed_files(changes, lookups).dom().contains(path) ==> exists|i: int|
            0 <= i < changes.len() && path_key(listed_path((#[trigger] lookups[i])@)) == path && (
            changes[i].1).1 == listed_files(changes, lookups)[path],
    decreases changes.len(),
{
    if changes.len() > 0 {
        let front = lookups.drop_last();
        changed_files_are_listed(changes.drop_last(), front, path);
        let last = lookups.len() - 1;
        assert(lookups[last] == lookups.last());
        assert(forall|i: int| 0 <= i < front.len() ==> #[trigger] front[i] == lookups[i]);
        assert(forall|i: int|
            0 <= i < front.len() ==> #[trigger] changes.drop_last()[i] == changes[i]);
        assert forall|i: int| 0 <= i < lookups.len() implies i == last || (#[trigger] lookups[i]
            == front[i] && 0 <= i < front.len()) by {}
        if listed_files(changes, lookups).dom().contains(path) && path_key(
            listed_path(lookups[last]@),
        ) != path {
            let i = choose|i: int|
                0 <= i < front.len() && path_key(listed_path((#[trigger] front[i])@)) == path && (
                changes.drop_last()[i].1).1 == listed_files(changes.drop_last(), front)[path];
            assert(path_key(listed_path(lookups[i]@)) == path);
            assert(changes.drop_last()[i] == changes[i]);
        }
    }
}

} // verus!
