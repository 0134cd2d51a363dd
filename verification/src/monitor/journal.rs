//! The records of the NTFS change journal, as `FSCTL_READ_USN_JOURNAL` returns
//! them: the number of the next record, then the records one after the other.

use vstd::prelude::*;

use crate::bytes::{
    field, field_fits, le_units, read_i64, read_u128, read_u16, read_u32, read_u64, read_units,
    signed_field,
};

verus! {

/// Size of the header that every record starts with.
pub const COMMON_HEADER_SIZE: usize = 8;

/// Size of the fixed part of a record of version 2, with its padding.
pub const RECORD_V2_SIZE: usize = 64;

/// Size of the fixed part of a record of version 3, with its padding.
pub const RECORD_V3_SIZE: usize = 80;

/// Size of the fixed part of a record of version 4.
pub const RECORD_V4_SIZE: usize = 80;

/// Where the extents of a record of version 4 start.
pub const EXTENTS_OFFSET: usize = 64;

/// Size of one extent.
pub const EXTENT_SIZE: usize = 16;

/// The fixed part of a record of version 2.
#[derive(Debug, Clone, Copy, PartialEq, Eq, Structural)]
pub struct UsnRecordV2 {
    pub record_length: u32,
    pub major_version: u16,
    pub minor_version: u16,
    pub file_reference_number: u64,
    pub parent_file_reference_number: u64,
    pub usn: i64,
    pub time_stamp: i64,
    pub reason: u32,
    pub source_info: u32,
    pub security_id: u32,
    pub file_attributes: u32,
    pub file_name_length: u16,
    pub file_name_offset: u16,
}

/// The fixed part of a record of version 3.
#[derive(Debug, Clone, Copy, PartialEq, Eq, Structural)]
pub struct UsnRecordV3 {
    pub record_length: u32,
    pub major_version: u16,
    pub minor_version: u16,
    pub file_reference_number: u128,
    pub parent_file_reference_number: u128,
    pub usn: i64,
    pub time_stamp: i64,
    pub reason: u32,
    pub source_info: u32,
    pub security_id: u32,
    pub file_attributes: u32,
    pub file_name_length: u16,
    pub file_name_offset: u16,
}

/// The fixed part of a record of version 4.
#[derive(Debug, Clone, Copy, PartialEq, Eq, Structural)]
pub struct UsnRecordV4 {
    pub record_length: u32,
    pub major_version: u16,
    pub minor_version: u16,
    pub file_reference_number: u128,
    pub parent_file_reference_number: u128,
    pub usn: i64,
    pub reason: u32,
    pub source_info: u32,
    pub remaining_extents: u32,
    pub number_of_extents: u16,
    pub extent_size: u16,
}

/// A range of a file that a record of version 4 reports.
#[derive(Debug, Clone, Copy, PartialEq, Eq, Structural)]
pub struct UsnRecordExtent {
    pub offset: i64,
    pub length: i64,
}

/// One record of the journal.
#[allow(inconsistent_fields)]
#[derive(Debug, Clone)]
pub enum UsnRecord {
    V2 { record: UsnRecordV2, filename: Vec<u16> },
    V3 { record: UsnRecordV3, filename: Vec<u16> },
    V4 { record: UsnRecordV4, extents: Vec<UsnRecordExtent> },
}

/// What a record says, with its variable part as a sequence.
#[allow(inconsistent_fields)]
pub enum UsnRecordModel {
    V2 { record: UsnRecordV2, filename: Seq<u16> },
    V3 { record: UsnRecordV3, filename: Seq<u16> },
    V4 { record: UsnRecordV4, extents: Seq<UsnRecordExtent> },
}

impl View for UsnRecord {
    type V = UsnRecordModel;

    open spec fn view(&self) -> UsnRecordModel {
        match *self {
            UsnRecord::V2 { record, filename } => UsnRecordModel::V2 { record, filename: filename@ },
            UsnRecord::V3 { record, filename } => UsnRecordModel::V3 { record, filename: filename@ },
            UsnRecord::V4 { record, extents } => UsnRecordModel::V4 { record, extents: extents@ },
        }
    }
}

impl UsnRecordModel {
    /// The number of the record in the journal.
    pub open spec fn usn(self) -> i64 {
        match self {
            UsnRecordModel::V2 { record, .. } => record.usn,
            UsnRecordModel::V3 { record, .. } => record.usn,
            UsnRecordModel::V4 { record, .. } => record.usn,
        }
    }

    /// The number of bytes from the start of the record to the next one.
    pub open spec fn record_length(self) -> u32 {
        match self {
            UsnRecordModel::V2 { record, .. } => record.record_length,
            UsnRecordModel::V3 { record, .. } => record.record_length,
            UsnRecordModel::V4 { record, .. } => record.record_length,
        }
    }
}

/// Why the bytes are not a reply of the journal.
#[derive(Debug, Clone, Copy, PartialEq, Eq, Structural)]
pub enum JournalFormatError {
    /// The reply has no room for the number of the next record.
    MissingNextUsn,
    /// A record starts so late that its header does not fit.
    HeaderExceedsData,
    /// A record is longer than what is left of the reply.
    RecordExceedsData,
    /// The fixed part of a record does not fit in what is left of the reply.
    FixedPartExceedsData,
    /// The name or the extents of a record do not fit in the record.
    VariablePartExceedsRecord,
    /// The name of a record holds half a unit.
    OddNameLength,
    /// The extents of a record end within an extent.
    PartialExtent,
    /// The record has a version that is not known.
    UnsupportedVersion { version: u16 },
    /// The record claims to take no room, so that no record can follow it.
    EmptyRecord,
}

/// The fixed part of the record of version 2 at `at`.
pub open spec fn v2_at(data: Seq<u8>, at: int) -> UsnRecordV2 {
    UsnRecordV2 {
        record_length: field(data, at, 4) as u32,
        major_version: field(data, at + 4, 2) as u16,
        minor_version: field(data, at + 6, 2) as u16,
        file_reference_number: field(data, at + 8, 8) as u64,
        parent_file_reference_number: field(data, at + 16, 8) as u64,
        usn: signed_field(data, at + 24) as i64,
        time_stamp: signed_field(data, at + 32) as i64,
        reason: field(data, at + 40, 4) as u32,
        source_info: field(data, at + 44, 4) as u32,
        security_id: field(data, at + 48, 4) as u32,
        file_attributes: field(data, at + 52, 4) as u32,
        file_name_length: field(data, at + 56, 2) as u16,
        file_name_offset: field(data, at + 58, 2) as u16,
    }
}

/// The fixed part of the record of version 3 at `at`.
pub open spec fn v3_at(data: Seq<u8>, at: int) -> UsnRecordV3 {
    UsnRecordV3 {
        record_length: field(data, at, 4) as u32,
        major_version: field(data, at + 4, 2) as u16,
        minor_version: field(data, at + 6, 2) as u16,
        file_reference_number: field(data, at + 8, 16) as u128,
        parent_file_reference_number: field(data, at + 24, 16) as u128,
        usn: signed_field(data, at + 40) as i64,
        time_stamp: signed_field(data, at + 48) as i64,
        reason: field(data, at + 56, 4) as u32,
        source_info: field(data, at + 60, 4) as u32,
        security_id: field(data, at + 64, 4) as u32,
        file_attributes: field(data, at + 68, 4) as u32,
        file_name_length: field(data, at + 72, 2) as u16,
        file_name_offset: field(data, at + 74, 2) as u16,
    }
}

/// The fixed part of the record of version 4 at `at`.
pub open spec fn v4_at(data: Seq<u8>, at: int) -> UsnRecordV4 {
    UsnRecordV4 {
        record_length: field(data, at, 4) as u32,
        major_version: field(data, at + 4, 2) as u16,
        minor_version: field(data, at + 6, 2) as u16,
        file_reference_number: field(data, at + 8, 16) as u128,
        parent_file_reference_number: field(data, at + 24, 16) as u128,
        usn: signed_field(data, at + 40) as i64,
        reason: field(data, at + 48, 4) as u32,
        source_info: field(data, at + 52, 4) as u32,
        remaining_extents: field(data, at + 56, 4) as u32,
        number_of_extents: field(data, at + 60, 2) as u16,
        extent_size: field(data, at + 62, 2) as u16,
    }
}

/// The extents that fill `s`.
pub open spec fn extents_in(s: Seq<u8>) -> Seq<UsnRecordExtent> {
    Seq::new(
        (s.len() / 16) as nat,
        |i: int|
            UsnRecordExtent {
                offset: signed_field(s, 16 * i) as i64,
                length: signed_field(s, 16 * i + 8) as i64,
            },
    )
}

/// The name that lies `offset` bytes into the record of `record_length` bytes
/// at `at`.
pub open spec fn name_at(
    data: Seq<u8>,
    at: int,
    record_length: u32,
    offset: u16,
    length: u16,
) -> Result<Seq<u16>, JournalFormatError> {
    if length == 0 {
        Ok(Seq::empty())
    } else if offset + length > record_length {
        Err(JournalFormatError::VariablePartExceedsRecord)
    } else if length % 2 != 0 {
        Err(JournalFormatError::OddNameLength)
    } else {
        Ok(le_units(data.subrange(at + offset, at + offset + length)))
    }
}

/// The extents of the record of version 4 at `at`.
pub open spec fn extents_at(data: Seq<u8>, at: int, record: UsnRecordV4) -> Result<
    Seq<UsnRecordExtent>,
    JournalFormatError,
> {
    if record.extent_size == 0 {
        Ok(Seq::empty())
    } else if EXTENTS_OFFSET + record.extent_size > record.record_length {
        Err(JournalFormatError::VariablePartExceedsRecord)
    } else if record.extent_size as int % EXTENT_SIZE as int != 0 {
        Err(JournalFormatError::PartialExtent)
    } else {
        Ok(
            extents_in(
                data.subrange(
                    at + EXTENTS_OFFSET,
                    at + EXTENTS_OFFSET + record.extent_size,
                ),
            ),
        )
    }
}

/// What the record at `at` says, or what is wrong with it.
pub open spec fn record_at(data: Seq<u8>, at: int) -> Result<UsnRecordModel, JournalFormatError> {
    let length = field(data, at, 4);
    let version = field(data, at + 4, 2) as u16;
    if at + COMMON_HEADER_SIZE > data.len() {
        Err(JournalFormatError::HeaderExceedsData)
    } else if at + length > data.len() {
        Err(JournalFormatError::RecordExceedsData)
    } else if version == 2 {
        let record = v2_at(data, at);
        if at + RECORD_V2_SIZE > data.len() {
            Err(JournalFormatError::FixedPartExceedsData)
        } else {
            match name_at(
                data,
                at,
                record.record_length,
                record.file_name_offset,
                record.file_name_length,
            ) {
                Ok(filename) => Ok(UsnRecordModel::V2 { record, filename }),
                Err(e) => Err(e),
            }
        }
    } else if version == 3 {
        let record = v3_at(data, at);
        if at + RECORD_V3_SIZE > data.len() {
            Err(JournalFormatError::FixedPartExceedsData)
        } else {
            match name_at(
                data,
                at,
                record.record_length,
                record.file_name_offset,
                record.file_name_length,
            ) {
                Ok(filename) => Ok(UsnRecordModel::V3 { record, filename }),
                Err(e) => Err(e),
            }
        }
    } else if version == 4 {
        let record = v4_at(data, at);
        if at + RECORD_V4_SIZE > data.len() {
            Err(JournalFormatError::FixedPartExceedsData)
        } else {
            match extents_at(data, at, record) {
                Ok(extents) => Ok(UsnRecordModel::V4 { record, extents }),
                Err(e) => Err(e),
            }
        }
    } else {
        Err(JournalFormatError::UnsupportedVersion { version })
    }
}

/// The records from `at` to the end of `data`.
pub open spec fn records_from(data: Seq<u8>, at: int) -> Result<
    Seq<UsnRecordModel>,
    JournalFormatError,
>
    decreases data.len() - at,
{
    if at >= data.len() {
        Ok(Seq::empty())
    } else {
        match record_at(data, at) {
            Err(e) => Err(e),
            Ok(record) => {
                let length = field(data, at, 4);
                if length == 0 {
                    Err(JournalFormatError::EmptyRecord)
                } else {
                    match records_from(data, at + length) {
                        Err(e) => Err(e),
                        Ok(rest) => Ok(seq![record] + rest),
                    }
                }
            },
        }
    }
}

/// What a reply of the journal says: the number of the next record to ask for,
/// and the records.
pub open spec fn journal_reply(data: Seq<u8>) -> Result<
    (int, Seq<UsnRecordModel>),
    JournalFormatError,
> {
    if data.len() < 8 {
        Err(JournalFormatError::MissingNextUsn)
    } else {
        match records_from(data, 8) {
            Err(e) => Err(e),
            Ok(records) => Ok((signed_field(data, 0), records)),
        }
    }
}

/// The records behind their views.
pub open spec fn record_views(records: Seq<UsnRecord>) -> Seq<UsnRecordModel> {
    records.map_values(|r: UsnRecord| r@)
}

fn read_v2(data: &[u8], at: usize) -> (r: UsnRecordV2)
    requires
        at + RECORD_V2_SIZE <= data@.len(),
    ensures
        r == v2_at(data@, at as int),
{
    assert(data@.len() == data.len());
    UsnRecordV2 {
        record_length: read_u32(data, at),
        major_version: read_u16(data, at + 4),
        minor_version: read_u16(data, at + 6),
        file_reference_number: read_u64(data, at + 8),
        parent_file_reference_number: read_u64(data, at + 16),
        usn: read_i64(data, at + 24),
        time_stamp: read_i64(data, at + 32),
        reason: read_u32(data, at + 40),
        source_info: read_u32(data, at + 44),
        security_id: read_u32(data, at + 48),
        file_attributes: read_u32(data, at + 52),
        file_name_length: read_u16(data, at + 56),
        file_name_offset: read_u16(data, at + 58),
    }
}

fn read_v3(data: &[u8], at: usize) -> (r: UsnRecordV3)
    requires
        at + RECORD_V3_SIZE <= data@.len(),
    ensures
        r == v3_at(data@, at as int),
{
    assert(data@.len() == data.len());
    UsnRecordV3 {
        record_length: read_u32(data, at),
        major_version: read_u16(data, at + 4),
        minor_version: read_u16(data, at + 6),
        file_reference_number: read_u128(data, at + 8),
        parent_file_reference_number: read_u128(data, at + 24),
        usn: read_i64(data, at + 40),
        time_stamp: read_i64(data, at + 48),
        reason: read_u32(data, at + 56),
        source_info: read_u32(data, at + 60),
        security_id: read_u32(data, at + 64),
        file_attributes: read_u32(data, at + 68),
        file_name_length: read_u16(data, at + 72),
        file_name_offset: read_u16(data, at + 74),
    }
}

fn read_v4(data: &[u8], at: usize) -> (r: UsnRecordV4)
    requires
        at + RECORD_V4_SIZE <= data@.len(),
    ensures
        r == v4_at(data@, at as int),
{
    assert(data@.len() == data.len());
    UsnRecordV4 {
        record_length: read_u32(data, at),
        major_version: read_u16(data, at + 4),
        minor_version: read_u16(data, at + 6),
        file_reference_number: read_u128(data, at + 8),
        parent_file_reference_number: read_u128(data, at + 24),
        usn: read_i64(data, at + 40),
        reason: read_u32(data, at + 48),
        source_info: read_u32(data, at + 52),
        remaining_extents: read_u32(data, at + 56),
        number_of_extents: read_u16(data, at + 60),
        extent_size: read_u16(data, at + 62),
    }
}

fn read_name(data: &[u8], at: usize, record_length: u32, offset: u16, length: u16) -> (r: Result<
    Vec<u16>,
    JournalFormatError,
>)
    requires
        at + record_length <= data@.len(),
    ensures
        match r {
            Ok(name) => name_at(data@, at as int, record_length, offset, length) == Ok::<
                Seq<u16>,
                JournalFormatError,
            >(name@),
            Err(e) => name_at(data@, at as int, record_length, offset, length) == Err::<
                Seq<u16>,
                JournalFormatError,
            >(e),
        },
{
    if length == 0 {
        return Ok(Vec::new());
    }
    if offset as u32 + length as u32 > record_length {
        return Err(JournalFormatError::VariablePartExceedsRecord);
    }
    if length % 2 != 0 {
        return Err(JournalFormatError::OddNameLength);
    }
    assert(data@.len() == data.len());
    let start: usize = at + offset as usize;
    Ok(read_units(data, start, length as usize))
}

fn read_extents(data: &[u8], at: usize, record: &UsnRecordV4) -> (r: Result<
    Vec<UsnRecordExtent>,
    JournalFormatError,
>)
    requires
        at + record.record_length <= data@.len(),
    ensures
        match r {
            Ok(extents) => extents_at(data@, at as int, *record) == Ok::<
                Seq<UsnRecordExtent>,
                JournalFormatError,
            >(extents@),
            Err(e) => extents_at(data@, at as int, *record) == Err::<
                Seq<UsnRecordExtent>,
                JournalFormatError,
            >(e),
        },
{
    if record.extent_size == 0 {
        return Ok(Vec::new());
    }
    if EXTENTS_OFFSET as u32 + record.extent_size as u32 > record.record_length {
        return Err(JournalFormatError::VariablePartExceedsRecord);
    }
    if record.extent_size as usize % EXTENT_SIZE != 0 {
        return Err(JournalFormatError::PartialExtent);
    }
    assert(data@.len() == data.len());
    let start: usize = at + EXTENTS_OFFSET;
    let bytes: &[u8] = vstd::slice::slice_subrange(data, start, start + record.extent_size as usize);
    let count: usize = record.extent_size as usize / EXTENT_SIZE;
    let mut extents: Vec<UsnRecordExtent> = Vec::new();
    for i in 0..count
        invariant
            bytes@.len() <= u16::MAX,
            count == bytes@.len() / 16,
            extents@.len() == i,
            forall|k: int| 0 <= k < i ==> extents@[k] == #[trigger] extents_in(bytes@)[k],
    {
        extents.push(
            UsnRecordExtent { offset: read_i64(bytes, 16 * i), length: read_i64(bytes, 16 * i + 8) },
        );
    }
    assert(extents@ =~= extents_in(bytes@));
    Ok(extents)
}

/// Reads the record at `at`; also gives the number of bytes to the next one.
fn read_record(data: &[u8], at: usize) -> (r: Result<(u32, UsnRecord), JournalFormatError>)
    requires
        at < data@.len(),
    ensures
        match r {
            Ok((length, record)) => {
                &&& length == field(data@, at as int, 4)
                &&& at + length <= data@.len()
                &&& record_at(data@, at as int) == Ok::<UsnRecordModel, JournalFormatError>(record@)
            },
            Err(e) => record_at(data@, at as int) == Err::<UsnRecordModel, JournalFormatError>(e),
        },
{
    let left: usize = data.len() - at;
    if left < COMMON_HEADER_SIZE {
        return Err(JournalFormatError::HeaderExceedsData);
    }
    proof {
        field_fits(data@, at as int, 4);
        field_fits(data@, at + 4, 2);
    }
    let length: u32 = read_u32(data, at);
    let version: u16 = read_u16(data, at + 4);
    if length as usize > left {
        return Err(JournalFormatError::RecordExceedsData);
    }
    if version == 2 {
        if left < RECORD_V2_SIZE {
            return Err(JournalFormatError::FixedPartExceedsData);
        }
        let record: UsnRecordV2 = read_v2(data, at);
        match read_name(data, at, length, record.file_name_offset, record.file_name_length) {
            Ok(filename) => Ok((length, UsnRecord::V2 { record, filename })),
            Err(e) => Err(e),
        }
    } else if version == 3 {
        if left < RECORD_V3_SIZE {
            return Err(JournalFormatError::FixedPartExceedsData);
        }
        let record: UsnRecordV3 = read_v3(data, at);
        match read_name(data, at, length, record.file_name_offset, record.file_name_length) {
            Ok(filename) => Ok((length, UsnRecord::V3 { record, filename })),
            Err(e) => Err(e),
        }
    } else if version == 4 {
        if left < RECORD_V4_SIZE {
            return Err(JournalFormatError::FixedPartExceedsData);
        }
        let record: UsnRecordV4 = read_v4(data, at);
        match read_extents(data, at, &record) {
            Ok(extents) => Ok((length, UsnRecord::V4 { record, extents })),
            Err(e) => Err(e),
        }
    } else {
        Err(JournalFormatError::UnsupportedVersion { version })
    }
}

/// Splits a reply of the journal into the number of the next record and the
/// records.
pub fn parse_records(data: &[u8]) -> (r: Result<(i64, Vec<UsnRecord>), JournalFormatError>)
    ensures
        match r {
            Ok((next_usn, records)) => journal_reply(data@) == Ok::<
                (int, Seq<UsnRecordModel>),
                JournalFormatError,
            >((next_usn as int, record_views(records@))),
            Err(e) => journal_reply(data@) == Err::<
                (int, Seq<UsnRecordModel>),
                JournalFormatError,
            >(e),
        },
{
    if data.len() < 8 {
        return Err(JournalFormatError::MissingNextUsn);
    }
    let next_usn: i64 = read_i64(data, 0);
    let mut records: Vec<UsnRecord> = Vec::new();
    let mut offset: usize = 8;
    while offset < data.len()
        invariant
            8 <= offset <= data@.len(),
            data@.len() <= usize::MAX,
            records_from(data@, 8) == (match records_from(data@, offset as int) {
                Ok(rest) => Ok(record_views(records@) + rest),
                Err(e) => Err(e),
            }),
        decreases data@.len() - offset,
    {
        match read_record(data, offset) {
            Err(e) => {
                return Err(e);
            },
            Ok((length, record)) => {
                if length == 0 {
                    return Err(JournalFormatError::EmptyRecord);
                }
                let ghost before = records@;
                let ghost model = record@;
                records.push(record);
                proof {
                    assert(record_views(records@) =~= record_views(before) + seq![model]);
                    if let Ok(rest) = records_from(data@, offset + length) {
                        assert(record_views(before) + (seq![model] + rest) =~= record_views(
                            records@,
                        ) + rest);
                    }
                }
                offset = offset + length as usize;
            },
        }
    }
    assert(record_views(records@) + Seq::<UsnRecordModel>::empty() =~= record_views(records@));
    Ok((next_usn, records))
}

/// The number of bytes that `records` take together.
pub open spec fn total_length(records: Seq<UsnRecordModel>) -> nat
    decreases records.len(),
{
    if records.len() == 0 {
        0
    } else {
        records[0].record_length() as nat + total_length(records.drop_first())
    }
}

proof fn lemma_records_fill(data: Seq<u8>, at: int)
    requires
        0 <= at <= data.len(),
        records_from(data, at) is Ok,
    ensures
        at + total_length(records_from(data, at)->Ok_0) == data.len(),
    decreases data.len() - at,
{
    if at < data.len() {
        let length = field(data, at, 4);
        let record = record_at(data, at)->Ok_0;
        let rest = records_from(data, at + length)->Ok_0;
        field_fits(data, at, 4);
        lemma_records_fill(data, at + length);
        assert((seq![record] + rest).drop_first() =~= rest);
    }
}

/// The records of an accepted reply fill it: together with the number of the
/// next record they take every byte, with no gap and no overlap.
pub proof fn records_fill_the_reply(data: Seq<u8>)
    requires
        journal_reply(data) is Ok,
    ensures
        8 + total_length(journal_reply(data)->Ok_0.1) == data.len(),
{
    lemma_records_fill(data, 8);
}

/// A record that lies in the part `y` of `x` reads the same in `x`.
proof fn lemma_record_rebase(x: Seq<u8>, y: Seq<u8>, d: int, k: int)
    requires
        0 <= d,
        d + y.len() <= x.len(),
        y == x.subrange(d, d + y.len()),
        0 <= k,
        record_at(y, k) is Ok,
    ensures
        record_at(x, d + k) == record_at(y, k),
        field(x, d + k, 4) == field(y, k, 4),
{
    field_fits(y, k, 4);
    field_fits(y, k + 4, 2);
    lemma_field_rebase(x, y, d, k, 4);
    lemma_field_rebase(x, y, d, k + 4, 2);
    let at = d + k;
    match record_at(y, k)->Ok_0 {
        UsnRecordModel::V2 { record, .. } => {
            lemma_v2_rebase(x, y, d, k);
            if record.file_name_length != 0 {
                assert(y.subrange(
                    k + record.file_name_offset,
                    k + record.file_name_offset + record.file_name_length,
                ) =~= x.subrange(
                    at + record.file_name_offset,
                    at + record.file_name_offset + record.file_name_length,
                ));
            }
        },
        UsnRecordModel::V3 { record, .. } => {
            lemma_v3_rebase(x, y, d, k);
            if record.file_name_length != 0 {
                assert(y.subrange(
                    k + record.file_name_offset,
                    k + record.file_name_offset + record.file_name_length,
                ) =~= x.subrange(
                    at + record.file_name_offset,
                    at + record.file_name_offset + record.file_name_length,
                ));
            }
        },
        UsnRecordModel::V4 { record, .. } => {
            lemma_v4_rebase(x, y, d, k);
            if record.extent_size != 0 {
                assert(y.subrange(
                    k + EXTENTS_OFFSET,
                    k + EXTENTS_OFFSET + record.extent_size,
                ) =~= x.subrange(at + EXTENTS_OFFSET, at + EXTENTS_OFFSET + record.extent_size));
            }
        },
    }
}

proof fn lemma_field_rebase(x: Seq<u8>, y: Seq<u8>, d: int, p: int, n: int)
    requires
        0 <= d,
        d + y.len() <= x.len(),
        y == x.subrange(d, d + y.len()),
        0 <= p,
        0 <= n,
        p + n <= y.len(),
    ensures
        field(x, d + p, n) == field(y, p, n),
{
    assert(y.subrange(p, p + n) =~= x.subrange(d + p, d + p + n));
}

proof fn lemma_v2_rebase(x: Seq<u8>, y: Seq<u8>, d: int, k: int)
    requires
        0 <= d,
        d + y.len() <= x.len(),
        y == x.subrange(d, d + y.len()),
        0 <= k,
        k + RECORD_V2_SIZE <= y.len(),
    ensures
        v2_at(x, d + k) == v2_at(y, k),
{
    lemma_field_rebase(x, y, d, k, 4);
    lemma_field_rebase(x, y, d, k + 4, 2);
    lemma_field_rebase(x, y, d, k + 6, 2);
    lemma_field_rebase(x, y, d, k + 8, 8);
    lemma_field_rebase(x, y, d, k + 16, 8);
    lemma_field_rebase(x, y, d, k + 24, 8);
    lemma_field_rebase(x, y, d, k + 32, 8);
    lemma_field_rebase(x, y, d, k + 40, 4);
    lemma_field_rebase(x, y, d, k + 44, 4);
    lemma_field_rebase(x, y, d, k + 48, 4);
    lemma_field_rebase(x, y, d, k + 52, 4);
    lemma_field_rebase(x, y, d, k + 56, 2);
    lemma_field_rebase(x, y, d, k + 58, 2);
}

proof fn lemma_v3_rebase(x: Seq<u8>, y: Seq<u8>, d: int, k: int)
    requires
        0 <= d,
        d + y.len() <= x.len(),
        y == x.subrange(d, d + y.len()),
        0 <= k,
        k + RECORD_V3_SIZE <= y.len(),
    ensures
        v3_at(x, d + k) == v3_at(y, k),
{
    lemma_field_rebase(x, y, d, k, 4);
    lemma_field_rebase(x, y, d, k + 4, 2);
    lemma_field_rebase(x, y, d, k + 6, 2);
    lemma_field_rebase(x, y, d, k + 8, 16);
    lemma_field_rebase(x, y, d, k + 24, 16);
    lemma_field_rebase(x, y, d, k + 40, 8);
    lemma_field_rebase(x, y, d, k + 48, 8);
    lemma_field_rebase(x, y, d, k + 56, 4);
    lemma_field_rebase(x, y, d, k + 60, 4);
    lemma_field_rebase(x, y, d, k + 64, 4);
    lemma_field_rebase(x, y, d, k + 68, 4);
    lemma_field_rebase(x, y, d, k + 72, 2);
    lemma_field_rebase(x, y, d, k + 74, 2);
}

proof fn lemma_v4_rebase(x: Seq<u8>, y: Seq<u8>, d: int, k: int)
    requires
        0 <= d,
        d + y.len() <= x.len(),
        y == x.subrange(d, d + y.len()),
        0 <= k,
        k + RECORD_V4_SIZE <= y.len(),
    ensures
        v4_at(x, d + k) == v4_at(y, k),
{
    lemma_field_rebase(x, y, d, k, 4);
    lemma_field_rebase(x, y, d, k + 4, 2);
    lemma_field_rebase(x, y, d, k + 6, 2);
    lemma_field_rebase(x, y, d, k + 8, 16);
    lemma_field_rebase(x, y, d, k + 24, 16);
    lemma_field_rebase(x, y, d, k + 40, 8);
    lemma_field_rebase(x, y, d, k + 48, 4);
    lemma_field_rebase(x, y, d, k + 52, 4);
    lemma_field_rebase(x, y, d, k + 56, 4);
    lemma_field_rebase(x, y, d, k + 60, 2);
    lemma_field_rebase(x, y, d, k + 62, 2);
}

proof fn lemma_records_concatenate(a: Seq<u8>, b: Seq<u8>, at: int)
    requires
        0 <= at <= a.len(),
        records_from(a, at) is Ok,
        records_from(b, 0) is Ok,
    ensures
        records_from(a + b, at) == Ok::<Seq<UsnRecordModel>, JournalFormatError>(
            records_from(a, at)->Ok_0 + records_from(b, 0)->Ok_0,
        ),
    decreases a.len() - at,
{
    let x = a + b;
    if at < a.len() {
        assert(a =~= x.subrange(0, a.len() as int));
        lemma_record_rebase(x, a, 0, at);
        field_fits(a, at, 4);
        let length = field(a, at, 4);
        lemma_records_concatenate(a, b, at + length);
        let record = record_at(a, at)->Ok_0;
        assert(seq![record] + (records_from(a, at + length)->Ok_0 + records_from(b, 0)->Ok_0)
            =~= (seq![record] + records_from(a, at + length)->Ok_0) + records_from(b, 0)->Ok_0);
    } else {
        assert(b =~= x.subrange(a.len() as int, a.len() + b.len() as int));
        lemma_records_shift(x, b, a.len() as int, 0);
        assert(Seq::<UsnRecordModel>::empty() + records_from(b, 0)->Ok_0 =~= records_from(
            b,
            0,
        )->Ok_0);
    }
}

proof fn lemma_records_shift(x: Seq<u8>, b: Seq<u8>, d: int, k: int)
    requires
        0 <= d,
        d + b.len() == x.len(),
        b == x.subrange(d, d + b.len()),
        0 <= k <= b.len(),
        records_from(b, k) is Ok,
    ensures
        records_from(x, d + k) == records_from(b, k),
    decreases b.len() - k,
{
    if k < b.len() {
        lemma_record_rebase(x, b, d, k);
        field_fits(b, k, 4);
        lemma_records_shift(x, b, d, k + field(b, k, 4));
    }
}

/// A reply keeps its records when more records follow: the records of `a` come
/// out first and unchanged, then those of `b`.
pub proof fn replies_concatenate(a: Seq<u8>, b: Seq<u8>)
    requires
        journal_reply(a) is Ok,
        records_from(b, 0) is Ok,
    ensures
        journal_reply(a + b) == Ok::<(int, Seq<UsnRecordModel>), JournalFormatError>(
            (journal_reply(a)->Ok_0.0, journal_reply(a)->Ok_0.1 + records_from(b, 0)->Ok_0),
        ),
{
    lemma_records_concatenate(a, b, 8);
    assert((a + b).subrange(0, 8) =~= a.subrange(0, 8));
}

} // verus!
