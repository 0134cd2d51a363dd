//! The replies of the change journal, stated from the side that writes them.

use vstd::prelude::*;

use crate::bytes::field;
use crate::laws::layout::{
    lemma_capacities, lemma_field_is_read, lemma_number_bytes, lemma_signed_bytes,
    lemma_signed_field_is_read, lemma_text_is_read, number_bytes, signed_bytes, text_bytes,
};
use crate::monitor::journal::{
    extents_in, parse_records, record_at, record_views, records_from, v2_at, v3_at, v4_at,
    JournalFormatError, UsnRecord, UsnRecordExtent, UsnRecordModel, UsnRecordV2, UsnRecordV3,
    UsnRecordV4,
};

verus! {

/// The fixed part of a record of version 2, as Windows lays it out.
pub open spec fn v2_bytes(r: UsnRecordV2) -> Seq<u8> {
    number_bytes(r.record_length as nat, 4) + number_bytes(r.major_version as nat, 2)
        + number_bytes(r.minor_version as nat, 2) + number_bytes(
        r.file_reference_number as nat,
        8,
    ) + number_bytes(r.parent_file_reference_number as nat, 8) + signed_bytes(r.usn) + signed_bytes(
        r.time_stamp,
    ) + number_bytes(r.reason as nat, 4) + number_bytes(r.source_info as nat, 4) + number_bytes(
        r.security_id as nat,
        4,
    ) + number_bytes(r.file_attributes as nat, 4) + number_bytes(r.file_name_length as nat, 2)
        + number_bytes(r.file_name_offset as nat, 2)
}

/// The fixed part of a record of version 3, as Windows lays it out.
pub open spec fn v3_bytes(r: UsnRecordV3) -> Seq<u8> {
    number_bytes(r.record_length as nat, 4) + number_bytes(r.major_version as nat, 2)
        + number_bytes(r.minor_version as nat, 2) + number_bytes(
        r.file_reference_number as nat,
        16,
    ) + number_bytes(r.parent_file_reference_number as nat, 16) + signed_bytes(r.usn)
        + signed_bytes(r.time_stamp) + number_bytes(r.reason as nat, 4) + number_bytes(
        r.source_info as nat,
        4,
    ) + number_bytes(r.security_id as nat, 4) + number_bytes(r.file_attributes as nat, 4)
        + number_bytes(r.file_name_length as nat, 2) + number_bytes(r.file_name_offset as nat, 2)
}

/// The fixed part of a record of version 4, as Windows lays it out.
pub open spec fn v4_bytes(r: UsnRecordV4) -> Seq<u8> {
    number_bytes(r.record_length as nat, 4) + number_bytes(r.major_version as nat, 2)
        + number_bytes(r.minor_version as nat, 2) + number_bytes(
        r.file_reference_number as nat,
        16,
    ) + number_bytes(r.parent_file_reference_number as nat, 16) + signed_bytes(r.usn)
        + number_bytes(r.reason as nat, 4) + number_bytes(r.source_info as nat, 4) + number_bytes(
        r.remaining_extents as nat,
        4,
    ) + number_bytes(r.number_of_extents as nat, 2) + number_bytes(r.extent_size as nat, 2)
}

/// The extents, one after the other.
pub open spec fn extent_bytes(extents: Seq<UsnRecordExtent>) -> Seq<u8>
    decreases extents.len(),
{
    if extents.len() == 0 {
        Seq::empty()
    } else {
        extent_bytes(extents.drop_last()) + signed_bytes(extents.last().offset) + signed_bytes(
            extents.last().length,
        )
    }
}

/// `bytes` are the record `record`: its fixed part, and its name or its extents
/// where the fixed part says that they are.
pub open spec fn is_layout(record: UsnRecordModel, bytes: Seq<u8>) -> bool {
    match record {
        UsnRecordModel::V2 { record, filename } => {
            &&& record.major_version == 2
            &&& record.record_length == bytes.len()
            &&& bytes.len() >= 64
            &&& bytes.take(60) == v2_bytes(record)
            &&& record.file_name_length == 2 * filename.len()
            &&& record.file_name_offset + record.file_name_length <= bytes.len()
            &&& bytes.subrange(
                record.file_name_offset as int,
                record.file_name_offset + record.file_name_length,
            ) == text_bytes(filename)
        },
        UsnRecordModel::V3 { record, filename } => {
            &&& record.major_version == 3
            &&& record.record_length == bytes.len()
            &&& bytes.len() >= 80
            &&& bytes.take(76) == v3_bytes(record)
            &&& record.file_name_length == 2 * filename.len()
            &&& record.file_name_offset + record.file_name_length <= bytes.len()
            &&& bytes.subrange(
                record.file_name_offset as int,
                record.file_name_offset + record.file_name_length,
            ) == text_bytes(filename)
        },
        UsnRecordModel::V4 { record, extents } => {
            &&& record.major_version == 4
            &&& record.record_length == bytes.len()
            &&& bytes.len() >= 80
            &&& bytes.take(64) == v4_bytes(record)
            &&& record.extent_size == 16 * extents.len()
            &&& 64 + record.extent_size <= bytes.len()
            &&& bytes.subrange(64, 64 + record.extent_size) == extent_bytes(extents)
        },
    }
}

/// Some pieces, one after the other.
pub open spec fn in_a_row(pieces: Seq<Seq<u8>>) -> Seq<u8>
    decreases pieces.len(),
{
    if pieces.len() == 0 {
        Seq::empty()
    } else {
        pieces[0] + in_a_row(pieces.drop_first())
    }
}

/// `pieces` are the records `records`.
pub open spec fn are_layouts(records: Seq<UsnRecordModel>, pieces: Seq<Seq<u8>>) -> bool {
    &&& records.len() == pieces.len()
    &&& forall|i: int| 0 <= i < records.len() ==> is_layout(#[trigger] records[i], pieces[i])
}

proof fn lemma_v2_is_read(data: Seq<u8>, at: int, r: UsnRecordV2)
    requires
        0 <= at,
        at + 60 <= data.len(),
        data.subrange(at, at + 60) == v2_bytes(r),
    ensures
        v2_at(data, at) == r,
{
    lemma_capacities();
    lemma_number_bytes(r.record_length as nat, 4);
    lemma_number_bytes(r.major_version as nat, 2);
    lemma_number_bytes(r.minor_version as nat, 2);
    lemma_number_bytes(r.file_reference_number as nat, 8);
    lemma_number_bytes(r.parent_file_reference_number as nat, 8);
    lemma_signed_bytes(r.usn);
    lemma_signed_bytes(r.time_stamp);
    lemma_number_bytes(r.reason as nat, 4);
    lemma_number_bytes(r.source_info as nat, 4);
    lemma_number_bytes(r.security_id as nat, 4);
    lemma_number_bytes(r.file_attributes as nat, 4);
    lemma_number_bytes(r.file_name_length as nat, 2);
    lemma_number_bytes(r.file_name_offset as nat, 2);
    let all = v2_bytes(r);
    assert forall|off: int, size: int| 0 <= off && 0 <= size && off + size <= 60 implies #[trigger] data.subrange(
        at + off,
        at + off + size,
    ) == all.subrange(off, off + size) by {
        assert(data.subrange(at + off, at + off + size) =~= data.subrange(at, at + 60).subrange(
            off,
            off + size,
        ));
    }
    assert(data.subrange(at + 0, at + 0 + 4) =~= number_bytes(r.record_length as nat, 4));
    lemma_field_is_read(data, at + 0, r.record_length as nat, 4);
    assert(data.subrange(at + 4, at + 4 + 2) =~= number_bytes(r.major_version as nat, 2));
    lemma_field_is_read(data, at + 4, r.major_version as nat, 2);
    assert(data.subrange(at + 6, at + 6 + 2) =~= number_bytes(r.minor_version as nat, 2));
    lemma_field_is_read(data, at + 6, r.minor_version as nat, 2);
    assert(data.subrange(at + 8, at + 8 + 8) =~= number_bytes(r.file_reference_number as nat, 8));
    lemma_field_is_read(data, at + 8, r.file_reference_number as nat, 8);
    assert(data.subrange(at + 16, at + 16 + 8) =~= number_bytes(r.parent_file_reference_number as nat, 8));
    lemma_field_is_read(data, at + 16, r.parent_file_reference_number as nat, 8);
    assert(data.subrange(at + 24, at + 24 + 8) =~= signed_bytes(r.usn));
    lemma_signed_field_is_read(data, at + 24, r.usn);
    assert(data.subrange(at + 32, at + 32 + 8) =~= signed_bytes(r.time_stamp));
    lemma_signed_field_is_read(data, at + 32, r.time_stamp);
    assert(data.subrange(at + 40, at + 40 + 4) =~= number_bytes(r.reason as nat, 4));
    lemma_field_is_read(data, at + 40, r.reason as nat, 4);
    assert(data.subrange(at + 44, at + 44 + 4) =~= number_bytes(r.source_info as nat, 4));
    lemma_field_is_read(data, at + 44, r.source_info as nat, 4);
    assert(data.subrange(at + 48, at + 48 + 4) =~= number_bytes(r.security_id as nat, 4));
    lemma_field_is_read(data, at + 48, r.security_id as nat, 4);
    assert(data.subrange(at + 52, at + 52 + 4) =~= number_bytes(r.file_attributes as nat, 4));
    lemma_field_is_read(data, at + 52, r.file_attributes as nat, 4);
    assert(data.subrange(at + 56, at + 56 + 2) =~= number_bytes(r.file_name_length as nat, 2));
    lemma_field_is_read(data, at + 56, r.file_name_length as nat, 2);
    assert(data.subrange(at + 58, at + 58 + 2) =~= number_bytes(r.file_name_offset as nat, 2));
    lemma_field_is_read(data, at + 58, r.file_name_offset as nat, 2);
}

proof fn lemma_v3_is_read(data: Seq<u8>, at: int, r: UsnRecordV3)
    requires
        0 <= at,
        at + 76 <= data.len(),
        data.subrange(at, at + 76) == v3_bytes(r),
    ensures
        v3_at(data, at) == r,
{
    lemma_capacities();
    lemma_number_bytes(r.record_length as nat, 4);
    lemma_number_bytes(r.major_version as nat, 2);
    lemma_number_bytes(r.minor_version as nat, 2);
    lemma_number_bytes(r.file_reference_number as nat, 16);
    lemma_number_bytes(r.parent_file_reference_number as nat, 16);
    lemma_signed_bytes(r.usn);
    lemma_signed_bytes(r.time_stamp);
    lemma_number_bytes(r.reason as nat, 4);
    lemma_number_bytes(r.source_info as nat, 4);
    lemma_number_bytes(r.security_id as nat, 4);
    lemma_number_bytes(r.file_attributes as nat, 4);
    lemma_number_bytes(r.file_name_length as nat, 2);
    lemma_number_bytes(r.file_name_offset as nat, 2);
    let all = v3_bytes(r);
    assert forall|off: int, size: int| 0 <= off && 0 <= size && off + size <= 76 implies #[trigger] data.subrange(
        at + off,
        at + off + size,
    ) == all.subrange(off, off + size) by {
        assert(data.subrange(at + off, at + off + size) =~= data.subrange(at, at + 76).subrange(
            off,
            off + size,
        ));
    }
    assert(data.subrange(at + 0, at + 0 + 4) =~= number_bytes(r.record_length as nat, 4));
    lemma_field_is_read(data, at + 0, r.record_length as nat, 4);
    assert(data.subrange(at + 4, at + 4 + 2) =~= number_bytes(r.major_version as nat, 2));
    lemma_field_is_read(data, at + 4, r.major_version as nat, 2);
    assert(data.subrange(at + 6, at + 6 + 2) =~= number_bytes(r.minor_version as nat, 2));
    lemma_field_is_read(data, at + 6, r.minor_version as nat, 2);
    assert(data.subrange(at + 8, at + 8 + 16) =~= number_bytes(r.file_reference_number as nat, 16));
    lemma_field_is_read(data, at + 8, r.file_reference_number as nat, 16);
    assert(data.subrange(at + 24, at + 24 + 16) =~= number_bytes(r.parent_file_reference_number as nat, 16));
    lemma_field_is_read(data, at + 24, r.parent_file_reference_number as nat, 16);
    assert(data.subrange(at + 40, at + 40 + 8) =~= signed_bytes(r.usn));
    lemma_signed_field_is_read(data, at + 40, r.usn);
    assert(data.subrange(at + 48, at + 48 + 8) =~= signed_bytes(r.time_stamp));
    lemma_signed_field_is_read(data, at + 48, r.time_stamp);
    assert(data.subrange(at + 56, at + 56 + 4) =~= number_bytes(r.reason as nat, 4));
    lemma_field_is_read(data, at + 56, r.reason as nat, 4);
    assert(data.subrange(at + 60, at + 60 + 4) =~= number_bytes(r.source_info as nat, 4));
    lemma_field_is_read(data, at + 60, r.source_info as nat, 4);
    assert(data.subrange(at + 64, at + 64 + 4) =~= number_bytes(r.security_id as nat, 4));
    lemma_field_is_read(data, at + 64, r.security_id as nat, 4);
    assert(data.subrange(at + 68, at + 68 + 4) =~= number_bytes(r.file_attributes as nat, 4));
    lemma_field_is_read(data, at + 68, r.file_attributes as nat, 4);
    assert(data.subrange(at + 72, at + 72 + 2) =~= number_bytes(r.file_name_length as nat, 2));
    lemma_field_is_read(data, at + 72, r.file_name_length as nat, 2);
    assert(data.subrange(at + 74, at + 74 + 2) =~= number_bytes(r.file_name_offset as nat, 2));
    lemma_field_is_read(data, at + 74, r.file_name_offset as nat, 2);
}

proof fn lemma_v4_is_read(data: Seq<u8>, at: int, r: UsnRecordV4)
    requires
        0 <= at,
        at + 64 <= data.len(),
        data.subrange(at, at + 64) == v4_bytes(r),
    ensures
        v4_at(data, at) == r,
{
    lemma_capacities();
    lemma_number_bytes(r.record_length as nat, 4);
    lemma_number_bytes(r.major_version as nat, 2);
    lemma_number_bytes(r.minor_version as nat, 2);
    lemma_number_bytes(r.file_reference_number as nat, 16);
    lemma_number_bytes(r.parent_file_reference_number as nat, 16);
    lemma_signed_bytes(r.usn);
    lemma_number_bytes(r.reason as nat, 4);
    lemma_number_bytes(r.source_info as nat, 4);
    lemma_number_bytes(r.remaining_extents as nat, 4);
    lemma_number_bytes(r.number_of_extents as nat, 2);
    lemma_number_bytes(r.extent_size as nat, 2);
    let all = v4_bytes(r);
    assert forall|off: int, size: int| 0 <= off && 0 <= size && off + size <= 64 implies #[trigger] data.subrange(
        at + off,
        at + off + size,
    ) == all.subrange(off, off + size) by {
        assert(data.subrange(at + off, at + off + size) =~= data.subrange(at, at + 64).subrange(
            off,
            off + size,
        ));
    }
    assert(data.subrange(at + 0, at + 0 + 4) =~= number_bytes(r.record_length as nat, 4));
    lemma_field_is_read(data, at + 0, r.record_length as nat, 4);
    assert(data.subrange(at + 4, at + 4 + 2) =~= number_bytes(r.major_version as nat, 2));
    lemma_field_is_read(data, at + 4, r.major_version as nat, 2);
    assert(data.subrange(at + 6, at + 6 + 2) =~= number_bytes(r.minor_version as nat, 2));
    lemma_field_is_read(data, at + 6, r.minor_version as nat, 2);
    assert(data.subrange(at + 8, at + 8 + 16) =~= number_bytes(r.file_reference_number as nat, 16));
    lemma_field_is_read(data, at + 8, r.file_reference_number as nat, 16);
    assert(data.subrange(at + 24, at + 24 + 16) =~= number_bytes(r.parent_file_reference_number as nat, 16));
    lemma_field_is_read(data, at + 24, r.parent_file_reference_number as nat, 16);
    assert(data.subrange(at + 40, at + 40 + 8) =~= signed_bytes(r.usn));
    lemma_signed_field_is_read(data, at + 40, r.usn);
    assert(data.subrange(at + 48, at + 48 + 4) =~= number_bytes(r.reason as nat, 4));
    lemma_field_is_read(data, at + 48, r.reason as nat, 4);
    assert(data.subrange(at + 52, at + 52 + 4) =~= number_bytes(r.source_info as nat, 4));
    lemma_field_is_read(data, at + 52, r.source_info as nat, 4);
    assert(data.subrange(at + 56, at + 56 + 4) =~= number_bytes(r.remaining_extents as nat, 4));
    lemma_field_is_read(data, at + 56, r.remaining_extents as nat, 4);
    assert(data.subrange(at + 60, at + 60 + 2) =~= number_bytes(r.number_of_extents as nat, 2));
    lemma_field_is_read(data, at + 60, r.number_of_extents as nat, 2);
    assert(data.subrange(at + 62, at + 62 + 2) =~= number_bytes(r.extent_size as nat, 2));
    lemma_field_is_read(data, at + 62, r.extent_size as nat, 2);
}

proof fn lemma_extents_are_read(extents: Seq<UsnRecordExtent>)
    ensures
        extent_bytes(extents).len() == 16 * extents.len(),
        extents_in(extent_bytes(extents)) == extents,
    decreases extents.len(),
{
    let bytes = extent_bytes(extents);
    if extents.len() > 0 {
        let front = extents.drop_last();
        let last = extents.last();
        lemma_extents_are_read(front);
        lemma_signed_bytes(last.offset);
        lemma_signed_bytes(last.length);
        assert forall|i: int| 0 <= i < extents.len() implies #[trigger] extents_in(bytes)[i]
            == extents[i] by {
            if i < front.len() {
                assert(bytes.subrange(16 * i, 16 * i + 8) =~= extent_bytes(front).subrange(
                    16 * i,
                    16 * i + 8,
                ));
                assert(bytes.subrange(16 * i + 8, 16 * i + 8 + 8) =~= extent_bytes(front).subrange(
                    16 * i + 8,
                    16 * i + 8 + 8,
                ));
                assert(extents_in(extent_bytes(front))[i] == front[i]);
            } else {
                assert(bytes.subrange(16 * i, 16 * i + 8) =~= signed_bytes(last.offset));
                assert(bytes.subrange(16 * i + 8, 16 * i + 8 + 8) =~= signed_bytes(last.length));
                lemma_signed_field_is_read(bytes, 16 * i, last.offset);
                lemma_signed_field_is_read(bytes, 16 * i + 8, last.length);
            }
        }
        assert(extents_in(bytes) =~= extents);
    } else {
        assert(extents_in(bytes) =~= extents);
    }
}

/// A record that starts with its length and its version starts so where it lies.
proof fn lemma_header_is_read(data: Seq<u8>, at: int, length: u32, version: u16, fixed: Seq<u8>)
    requires
        0 <= at,
        at + 6 <= at + fixed.len() <= data.len(),
        data.subrange(at, at + fixed.len()) == fixed,
        fixed.take(6) == number_bytes(length as nat, 4) + number_bytes(version as nat, 2),
    ensures
        field(data, at, 4) == length,
        field(data, at + 4, 2) == version,
{
    lemma_capacities();
    lemma_number_bytes(length as nat, 4);
    lemma_number_bytes(version as nat, 2);
    let header = fixed.take(6);
    assert(data.subrange(at, at + 4) =~= data.subrange(at, at + fixed.len()).take(6).subrange(0, 4));
    assert(header.subrange(0, 4) =~= number_bytes(length as nat, 4));
    assert(data.subrange(at + 4, at + 4 + 2) =~= data.subrange(at, at + fixed.len()).take(
        6,
    ).subrange(4, 6));
    assert(header.subrange(4, 6) =~= number_bytes(version as nat, 2));
    lemma_field_is_read(data, at, length as nat, 4);
    lemma_field_is_read(data, at + 4, version as nat, 2);
}

/// A record that was laid out at `at` is read there.
proof fn lemma_record_is_read(data: Seq<u8>, at: int, record: UsnRecordModel, bytes: Seq<u8>)
    requires
        0 <= at,
        at + bytes.len() <= data.len(),
        data.subrange(at, at + bytes.len()) == bytes,
        is_layout(record, bytes),
    ensures
        record_at(data, at) == Ok::<UsnRecordModel, JournalFormatError>(record),
        field(data, at, 4) == bytes.len(),
{
    match record {
        UsnRecordModel::V2 { record: r, filename } => {
            assert(data.subrange(at, at + 60) =~= bytes.take(60));
            lemma_v2_is_read(data, at, r);
            lemma_capacities();
            lemma_number_bytes(r.record_length as nat, 4);
            lemma_number_bytes(r.major_version as nat, 2);
            assert(v2_bytes(r).len() == bytes.take(60).len());
            assert(v2_bytes(r).take(6) =~= number_bytes(r.record_length as nat, 4)
                + number_bytes(r.major_version as nat, 2));
            lemma_header_is_read(data, at, r.record_length, r.major_version, v2_bytes(r));
            lemma_text_is_read(filename);
            let start = r.file_name_offset as int;
            let end = r.file_name_offset + r.file_name_length;
            assert(data.subrange(at + start, at + end) =~= bytes.subrange(start, end));
            assert(filename.len() == 0 ==> filename =~= Seq::empty());
        },
        UsnRecordModel::V3 { record: r, filename } => {
            assert(data.subrange(at, at + 76) =~= bytes.take(76));
            lemma_v3_is_read(data, at, r);
            lemma_capacities();
            lemma_number_bytes(r.record_length as nat, 4);
            lemma_number_bytes(r.major_version as nat, 2);
            assert(v3_bytes(r).len() == bytes.take(76).len());
            assert(v3_bytes(r).take(6) =~= number_bytes(r.record_length as nat, 4)
                + number_bytes(r.major_version as nat, 2));
            lemma_header_is_read(data, at, r.record_length, r.major_version, v3_bytes(r));
            lemma_text_is_read(filename);
            let start = r.file_name_offset as int;
            let end = r.file_name_offset + r.file_name_length;
            assert(data.subrange(at + start, at + end) =~= bytes.subrange(start, end));
            assert(filename.len() == 0 ==> filename =~= Seq::empty());
        },
        UsnRecordModel::V4 { record: r, extents } => {
            assert(data.subrange(at, at + 64) =~= bytes.take(64));
            lemma_v4_is_read(data, at, r);
            lemma_capacities();
            lemma_number_bytes(r.record_length as nat, 4);
            lemma_number_bytes(r.major_version as nat, 2);
            assert(v4_bytes(r).len() == bytes.take(64).len());
            assert(v4_bytes(r).take(6) =~= number_bytes(r.record_length as nat, 4)
                + number_bytes(r.major_version as nat, 2));
            lemma_header_is_read(data, at, r.record_length, r.major_version, v4_bytes(r));
            lemma_extents_are_read(extents);
            assert(data.subrange(at + 64, at + 64 + r.extent_size) =~= bytes.subrange(
                64,
                64 + r.extent_size,
            ));
            assert(extents.len() == 0 ==> extents =~= Seq::empty());
        },
    }
}


proof fn lemma_records_are_read(
    data: Seq<u8>,
    at: int,
    records: Seq<UsnRecordModel>,
    pieces: Seq<Seq<u8>>,
)
    requires
        0 <= at <= data.len(),
        data.skip(at) == in_a_row(pieces),
        are_layouts(records, pieces),
    ensures
        records_from(data, at) == Ok::<Seq<UsnRecordModel>, JournalFormatError>(records),
    decreases pieces.len(),
{
    if pieces.len() == 0 {
        assert(data.skip(at).len() == 0);
        assert(records =~= Seq::empty());
    } else {
        let bytes = pieces[0];
        let rest = pieces.drop_first();
        assert(is_layout(records[0], bytes));
        assert(data.skip(at).len() == bytes.len() + in_a_row(rest).len());
        assert(data.subrange(at, at + bytes.len()) =~= data.skip(at).take(bytes.len() as int));
        assert(data.skip(at).take(bytes.len() as int) =~= bytes);
        lemma_record_is_read(data, at, records[0], bytes);
        assert(data.skip(at + bytes.len()) =~= data.skip(at).skip(bytes.len() as int));
        assert(data.skip(at).skip(bytes.len() as int) =~= in_a_row(rest));
        assert forall|i: int| 0 <= i < rest.len() implies is_layout(
            #[trigger] records.drop_first()[i],
            rest[i],
        ) by {
            assert(is_layout(records[i + 1], pieces[i + 1]));
        }
        lemma_records_are_read(data, at + bytes.len(), records.drop_first(), rest);
        assert(seq![records[0]] + records.drop_first() =~= records);
    }
}

/// Reading undoes laying out: of a reply that consists of the number of the next
/// record and of some records, in the layouts that Windows documents, that number
/// and those records are read, with every field as it was written.
pub proof fn replies_are_read_as_they_were_written(
    data: &[u8],
    next_usn: i64,
    records: Seq<UsnRecordModel>,
    pieces: Seq<Seq<u8>>,
    r: Result<(i64, Vec<UsnRecord>), JournalFormatError>,
)
    requires
        call_ensures(parse_records, (data,), r),
        data@ == signed_bytes(next_usn) + in_a_row(pieces),
        are_layouts(records, pieces),
    ensures
        r matches Ok((next, read)) && next == next_usn && record_views(read@) == records,
{
    lemma_signed_bytes(next_usn);
    assert(data@.subrange(0, 8) =~= signed_bytes(next_usn));
    lemma_signed_field_is_read(data@, 0, next_usn);
    assert(data@.skip(8) =~= in_a_row(pieces));
    lemma_records_are_read(data@, 8, records, pieces);
}

/// A reply that ends within its last record is refused, and so is one that ends
/// within the number of the next record.
pub proof fn cut_replies_are_refused(
    data: &[u8],
    next_usn: i64,
    records: Seq<UsnRecordModel>,
    pieces: Seq<Seq<u8>>,
    last: Seq<u8>,
    kept: int,
    r: Result<(i64, Vec<UsnRecord>), JournalFormatError>,
)
    requires
        call_ensures(parse_records, (data,), r),
        are_layouts(records, pieces),
        exists|record: UsnRecordModel| #[trigger] is_layout(record, last),
        0 < kept < last.len(),
        data@ == signed_bytes(next_usn) + in_a_row(pieces) + last.take(kept),
    ensures
        r == Err::<(i64, Vec<UsnRecord>), JournalFormatError>(
            if kept < 8 {
                JournalFormatError::HeaderExceedsData
            } else {
                JournalFormatError::RecordExceedsData
            },
        ),
{
    lemma_signed_bytes(next_usn);
    assert(data@.skip(8) =~= in_a_row(pieces) + last.take(kept));
    lemma_cut_records(data@, 8, records, pieces, last, kept);
}

proof fn lemma_cut_records(
    data: Seq<u8>,
    at: int,
    records: Seq<UsnRecordModel>,
    pieces: Seq<Seq<u8>>,
    last: Seq<u8>,
    kept: int,
)
    requires
        0 <= at <= data.len(),
        data.skip(at) == in_a_row(pieces) + last.take(kept),
        are_layouts(records, pieces),
        exists|record: UsnRecordModel| #[trigger] is_layout(record, last),
        0 < kept < last.len(),
    ensures
        records_from(data, at) == Err::<Seq<UsnRecordModel>, JournalFormatError>(
            if kept < 8 {
                JournalFormatError::HeaderExceedsData
            } else {
                JournalFormatError::RecordExceedsData
            },
        ),
    decreases pieces.len(),
{
    if pieces.len() == 0 {
        assert(data.skip(at) =~= last.take(kept));
        assert(data.len() == at + kept);
        if kept >= 8 {
            let record = choose|record: UsnRecordModel| #[trigger] is_layout(record, last);
            assert(last.subrange(0, last.len() as int) =~= last);
            lemma_record_is_read(last, 0, record, last);
            assert(data.subrange(at, at + 4) =~= data.skip(at).subrange(0, 4));
            assert(last.take(kept).subrange(0, 4) =~= last.subrange(0, 4));
        }
    } else {
        let bytes = pieces[0];
        let rest = pieces.drop_first();
        assert(is_layout(records[0], bytes));
        assert(data.skip(at) =~= bytes + (in_a_row(rest) + last.take(kept)));
        assert(data.subrange(at, at + bytes.len()) =~= data.skip(at).take(bytes.len() as int));
        assert(data.skip(at).take(bytes.len() as int) =~= bytes);
        lemma_record_is_read(data, at, records[0], bytes);
        assert(data.skip(at + bytes.len()) =~= data.skip(at).skip(bytes.len() as int));
        assert(data.skip(at).skip(bytes.len() as int) =~= in_a_row(rest) + last.take(kept));
        assert forall|i: int| 0 <= i < rest.len() implies is_layout(
            #[trigger] records.drop_first()[i],
            rest[i],
        ) by {
            assert(is_layout(records[i + 1], pieces[i + 1]));
        }
        lemma_cut_records(data, at + bytes.len(), records.drop_first(), rest, last, kept);
    }
}

/// A reply with a record of another version than 2, 3 and 4 is refused for it.
pub proof fn unknown_versions_are_refused(
    data: &[u8],
    next_usn: i64,
    bytes: Seq<u8>,
    version: u16,
    r: Result<(i64, Vec<UsnRecord>), JournalFormatError>,
)
    requires
        call_ensures(parse_records, (data,), r),
        data@ == signed_bytes(next_usn) + bytes,
        8 <= bytes.len() <= u32::MAX,
        bytes.take(6) == number_bytes(bytes.len(), 4) + number_bytes(version as nat, 2),
        version != 2 && version != 3 && version != 4,
    ensures
        r == Err::<(i64, Vec<UsnRecord>), JournalFormatError>(
            JournalFormatError::UnsupportedVersion { version },
        ),
{
    lemma_signed_bytes(next_usn);
    assert(data@.subrange(8, 8 + bytes.len() as int) =~= bytes);
    lemma_header_is_read(data@, 8, bytes.len() as u32, version, bytes);
}

/// A record of version 2 is refused if its name reaches beyond it, if its name holds
/// half a unit, or if it claims to have no length.
pub proof fn malformed_records_of_version_2_are_refused(
    data: &[u8],
    next_usn: i64,
    record: UsnRecordV2,
    bytes: Seq<u8>,
    r: Result<(i64, Vec<UsnRecord>), JournalFormatError>,
)
    requires
        call_ensures(parse_records, (data,), r),
        data@ == signed_bytes(next_usn) + bytes,
        bytes.len() >= 64,
        bytes.take(60) == v2_bytes(record),
        record.major_version == 2,
        record.record_length <= bytes.len(),
    ensures
        record.file_name_length > 0 && record.file_name_offset + record.file_name_length
            > record.record_length ==> (r matches Err(e) && e
            == JournalFormatError::VariablePartExceedsRecord),
        record.file_name_offset + record.file_name_length <= record.record_length
            && record.file_name_length % 2 == 1 ==> (r matches Err(e) && e
            == JournalFormatError::OddNameLength),
        record.file_name_length == 0 && record.record_length == 0 ==> (r matches Err(e) && e
            == JournalFormatError::EmptyRecord),
{
    lemma_signed_bytes(next_usn);
    lemma_capacities();
    lemma_number_bytes(record.record_length as nat, 4);
    lemma_number_bytes(record.major_version as nat, 2);
    assert(data@.subrange(8, 68) =~= bytes.take(60));
    lemma_v2_is_read(data@, 8, record);
    assert(v2_bytes(record).take(6) =~= number_bytes(record.record_length as nat, 4) + number_bytes(
        record.major_version as nat,
        2,
    ));
    assert(v2_bytes(record) =~= bytes.take(60));
    assert(v2_bytes(record).len() == 60);
    lemma_header_is_read(
        data@,
        8,
        record.record_length,
        record.major_version,
        v2_bytes(record),
    );
}

/// A record of version 3 is refused if its name reaches beyond it, if its name holds
/// half a unit, or if it claims to have no length.
pub proof fn malformed_records_of_version_3_are_refused(
    data: &[u8],
    next_usn: i64,
    record: UsnRecordV3,
    bytes: Seq<u8>,
    r: Result<(i64, Vec<UsnRecord>), JournalFormatError>,
)
    requires
        call_ensures(parse_records, (data,), r),
        data@ == signed_bytes(next_usn) + bytes,
        bytes.len() >= 80,
        bytes.take(76) == v3_bytes(record),
        record.major_version == 3,
        record.record_length <= bytes.len(),
    ensures
        record.file_name_length > 0 && record.file_name_offset + record.file_name_length
            > record.record_length ==> (r matches Err(e) && e
            == JournalFormatError::VariablePartExceedsRecord),
        record.file_name_offset + record.file_name_length <= record.record_length
            && record.file_name_length % 2 == 1 ==> (r matches Err(e) && e
            == JournalFormatError::OddNameLength),
        record.file_name_length == 0 && record.record_length == 0 ==> (r matches Err(e) && e
            == JournalFormatError::EmptyRecord),
{
    lemma_signed_bytes(next_usn);
    lemma_capacities();
    lemma_number_bytes(record.record_length as nat, 4);
    lemma_number_bytes(record.major_version as nat, 2);
    assert(data@.subrange(8, 84) =~= bytes.take(76));
    lemma_v3_is_read(data@, 8, record);
    assert(v3_bytes(record).take(6) =~= number_bytes(record.record_length as nat, 4) + number_bytes(
        record.major_version as nat,
        2,
    ));
    assert(v3_bytes(record) =~= bytes.take(76));
    assert(v3_bytes(record).len() == 76);
    lemma_header_is_read(
        data@,
        8,
        record.record_length,
        record.major_version,
        v3_bytes(record),
    );
}

/// A record of version 4 is refused if its extents reach beyond it, if it holds
/// part of an extent, or if it claims to have no length.
pub proof fn malformed_records_of_version_4_are_refused(
    data: &[u8],
    next_usn: i64,
    record: UsnRecordV4,
    bytes: Seq<u8>,
    r: Result<(i64, Vec<UsnRecord>), JournalFormatError>,
)
    requires
        call_ensures(parse_records, (data,), r),
        data@ == signed_bytes(next_usn) + bytes,
        bytes.len() >= 80,
        bytes.take(64) == v4_bytes(record),
        record.major_version == 4,
        record.record_length <= bytes.len(),
    ensures
        record.extent_size > 0 && 64 + record.extent_size > record.record_length ==> (
        r matches Err(e) && e == JournalFormatError::VariablePartExceedsRecord),
        64 + record.extent_size <= record.record_length && record.extent_size % 16 != 0 ==> (
        r matches Err(e) && e == JournalFormatError::PartialExtent),
        record.extent_size == 0 && record.record_length == 0 ==> (r matches Err(e) && e
            == JournalFormatError::EmptyRecord),
{
    lemma_signed_bytes(next_usn);
    lemma_capacities();
    lemma_number_bytes(record.record_length as nat, 4);
    lemma_number_bytes(record.major_version as nat, 2);
    assert(data@.subrange(8, 72) =~= bytes.take(64));
    lemma_v4_is_read(data@, 8, record);
    assert(v4_bytes(record).take(6) =~= number_bytes(record.record_length as nat, 4) + number_bytes(
        record.major_version as nat,
        2,
    ));
    assert(v4_bytes(record) =~= bytes.take(64));
    assert(v4_bytes(record).len() == 64);
    lemma_header_is_read(
        data@,
        8,
        record.record_length,
        record.major_version,
        v4_bytes(record),
    );
}

/// A record that ends where the data end is refused if it has no room for the fixed
/// part of its version, and data without room for the number of the next record are
/// refused.
pub proof fn records_need_their_fixed_part(
    data: &[u8],
    next_usn: i64,
    bytes: Seq<u8>,
    length: u32,
    version: u16,
    r: Result<(i64, Vec<UsnRecord>), JournalFormatError>,
)
    requires
        call_ensures(parse_records, (data,), r),
    ensures
        data@.len() < 8 ==> (r matches Err(e) && e == JournalFormatError::MissingNextUsn),
        data@ == signed_bytes(next_usn) + bytes && bytes.len() >= 8 && bytes.take(6)
            == number_bytes(length as nat, 4) + number_bytes(version as nat, 2) && length
            <= bytes.len() && ((version == 2 && bytes.len() < 64) || (version == 3 && bytes.len()
            < 80) || (version == 4 && bytes.len() < 80)) ==> (r matches Err(e) && e
            == JournalFormatError::FixedPartExceedsData),
{
    if data@ == signed_bytes(next_usn) + bytes && bytes.len() >= 8 && bytes.take(6) == number_bytes(
        length as nat,
        4,
    ) + number_bytes(version as nat, 2) {
        lemma_signed_bytes(next_usn);
        assert(data@.subrange(8, 8 + bytes.len() as int) =~= bytes);
        lemma_header_is_read(data@, 8, length, version, bytes);
    }
}

} // verus!
