//! What the operations that Process Monitor reports do to files and to the
//! registry.

use vstd::prelude::*;

use crate::item::{only, untouched, ItemAction, ItemMetadata};
use crate::monitor::details::Details;
use crate::text::same_text;

verus! {

/// A minor function of a file system operation.
#[derive(Debug)]
pub struct AdditionalFilesystemOperation {
    pub id: u32,
    pub irp: String,
    pub fastio: String,
    pub name: Option<String>,
}

/// A file system operation: the name that its requests have in the driver, and
/// the name under which Process Monitor shows them.
#[derive(Debug)]
pub struct FilesystemOperation {
    pub to: String,
    pub from: String,
    pub additional: Vec<AdditionalFilesystemOperation>,
}

/// The name that the minor function `a` gives to `operation`, if it is meant.
pub open spec fn minor_name(
    a: AdditionalFilesystemOperation,
    operation: Seq<char>,
    event_type: Option<Seq<char>>,
) -> Option<Seq<char>> {
    match a.name {
        None => None,
        Some(name) => if name@ == operation || ((a.irp@ == operation || a.fastio@ == operation)
            && event_type == Some(name@)) {
            Some(name@)
        } else {
            None
        },
    }
}

/// The name that the first fitting minor function from `i` on gives to
/// `operation`.
pub open spec fn minor_name_from(
    additional: Seq<AdditionalFilesystemOperation>,
    i: int,
    operation: Seq<char>,
    event_type: Option<Seq<char>>,
) -> Option<Seq<char>>
    decreases additional.len() - i,
{
    if i < 0 || i >= additional.len() {
        None
    } else if minor_name(additional[i], operation, event_type) is Some {
        minor_name(additional[i], operation, event_type)
    } else {
        minor_name_from(additional, i + 1, operation, event_type)
    }
}

/// The name that `op` gives to `operation`, if it is meant.
pub open spec fn major_name(
    op: FilesystemOperation,
    operation: Seq<char>,
    event_type: Option<Seq<char>>,
) -> Option<Seq<char>> {
    if operation == op.to@ {
        Some(op.to@)
    } else if minor_name_from(op.additional@, 0, operation, event_type) is Some {
        minor_name_from(op.additional@, 0, operation, event_type)
    } else if operation == op.from@ {
        Some(op.to@)
    } else {
        None
    }
}

/// The name that the first fitting operation of `ops` from `i` on gives to
/// `operation`.
pub open spec fn file_operation_from(
    ops: Seq<FilesystemOperation>,
    i: int,
    operation: Seq<char>,
    event_type: Option<Seq<char>>,
) -> Option<Seq<char>>
    decreases ops.len() - i,
{
    if i < 0 || i >= ops.len() {
        None
    } else if major_name(ops[i], operation, event_type) is Some {
        major_name(ops[i], operation, event_type)
    } else {
        file_operation_from(ops, i + 1, operation, event_type)
    }
}

/// The name under which Process Monitor shows `operation`, if it is a file
/// system operation.
pub open spec fn file_operation(
    ops: Seq<FilesystemOperation>,
    operation: Seq<char>,
    event_type: Option<Seq<char>>,
) -> Option<Seq<char>> {
    file_operation_from(ops, 0, operation, event_type)
}

/// `name` is what `op` or one of its minor functions is called in the driver.
pub open spec fn is_driver_name(op: FilesystemOperation, name: Seq<char>) -> bool {
    op.from@ == name || exists|j: int|
        0 <= j < op.additional@.len() && ((#[trigger] op.additional@[j]).irp@ == name
            || op.additional@[j].fastio@ == name)
}

proof fn lemma_minor_name_stays(
    additional: Seq<AdditionalFilesystemOperation>,
    i: int,
    name: Seq<char>,
    event_type: Option<Seq<char>>,
)
    requires
        0 <= i,
        forall|j: int|
            0 <= j < additional.len() ==> (#[trigger] additional[j]).irp@ != name
                && additional[j].fastio@ != name,
    ensures
        minor_name_from(additional, i, name, event_type) matches Some(shown) ==> shown == name,
    decreases additional.len() - i,
{
    if i < additional.len() {
        lemma_minor_name_stays(additional, i + 1, name, event_type);
    }
}

proof fn lemma_minor_name_is_found(
    additional: Seq<AdditionalFilesystemOperation>,
    i: int,
    operation: Seq<char>,
    event_type: Option<Seq<char>>,
    later_type: Option<Seq<char>>,
)
    requires
        0 <= i,
    ensures
        minor_name_from(additional, i, operation, event_type) matches Some(shown)
            ==> minor_name_from(additional, i, shown, later_type) is Some,
    decreases additional.len() - i,
{
    if i < additional.len() {
        lemma_minor_name_is_found(additional, i + 1, operation, event_type, later_type);
    }
}

proof fn lemma_converted_names_stay(
    ops: Seq<FilesystemOperation>,
    i: int,
    operation: Seq<char>,
    event_type: Option<Seq<char>>,
    later_type: Option<Seq<char>>,
    name: Seq<char>,
)
    requires
        0 <= i,
        forall|k: int| 0 <= k < ops.len() ==> !#[trigger] is_driver_name(ops[k], name),
        file_operation_from(ops, i, operation, event_type) == Some(name),
    ensures
        file_operation_from(ops, i, name, later_type) == Some(name),
    decreases ops.len() - i,
{
    if i < ops.len() {
        let op = ops[i];
        assert(!is_driver_name(op, name));
        lemma_minor_name_stays(op.additional@, 0, name, later_type);
        lemma_minor_name_is_found(op.additional@, 0, operation, event_type, later_type);
        if major_name(op, operation, event_type) is None {
            lemma_converted_names_stay(ops, i + 1, operation, event_type, later_type, name);
        }
    }
}

/// A name under which Process Monitor shows an operation stays as it is, whatever
/// the type of the event, unless the driver calls an operation by it.
pub proof fn converted_names_stay(
    ops: Seq<FilesystemOperation>,
    operation: Seq<char>,
    event_type: Option<Seq<char>>,
    later_type: Option<Seq<char>>,
    name: Seq<char>,
)
    requires
        file_operation(ops, operation, event_type) == Some(name),
        forall|k: int| 0 <= k < ops.len() ==> !#[trigger] is_driver_name(ops[k], name),
    ensures
        file_operation(ops, name, later_type) == Some(name),
{
    lemma_converted_names_stay(ops, 0, operation, event_type, later_type, name);
}

/// The characters of an optional text.
pub open spec fn text_of(text: Option<&str>) -> Option<Seq<char>> {
    match text {
        Some(t) => Some(t@),
        None => None,
    }
}

fn find_minor<'a>(
    additional: &'a Vec<AdditionalFilesystemOperation>,
    operation: &str,
    event_type: Option<&str>,
) -> (r: Option<&'a String>)
    ensures
        match r {
            Some(name) => minor_name_from(additional@, 0, operation@, text_of(event_type)) == Some(
                name@,
            ),
            None => minor_name_from(additional@, 0, operation@, text_of(event_type)) is None,
        },
{
    for i in 0..additional.len()
        invariant
            minor_name_from(additional@, 0, operation@, text_of(event_type)) == minor_name_from(
                additional@,
                i as int,
                operation@,
                text_of(event_type),
            ),
    {
        let a: &'a AdditionalFilesystemOperation = &additional[i];
        if let Some(name) = &a.name {
            if same_text(name.as_str(), operation) {
                return Some(name);
            }
            if let Some(t) = event_type {
                if (same_text(a.irp.as_str(), operation) || same_text(a.fastio.as_str(), operation))
                    && same_text(name.as_str(), t) {
                    return Some(name);
                }
            }
        }
    }
    None
}

/// The name under which Process Monitor shows `operation`, if it is a file
/// system operation.
pub fn get_file_operation(
    ops: &Vec<FilesystemOperation>,
    operation: &str,
    event_type: Option<&str>,
) -> (r: Option<String>)
    ensures
        match r {
            Some(name) => file_operation(ops@, operation@, text_of(event_type)) == Some(name@),
            None => file_operation(ops@, operation@, text_of(event_type)) is None,
        },
{
    for i in 0..ops.len()
        invariant
            file_operation(ops@, operation@, text_of(event_type)) == file_operation_from(
                ops@,
                i as int,
                operation@,
                text_of(event_type),
            ),
    {
        let op: &FilesystemOperation = &ops[i];
        if same_text(operation, op.to.as_str()) {
            return Some(op.to.clone());
        }
        if let Some(name) = find_minor(&op.additional, operation, event_type) {
            return Some(name.clone());
        }
        if same_text(operation, op.from.as_str()) {
            return Some(op.to.clone());
        }
    }
    None
}

/// The operations of the registry that change nothing.
pub open spec fn is_passive_registry_operation(operation: Seq<char>) -> bool {
    ||| operation == "RegOpenKey"@
    ||| operation == "RegCloseKey"@
    ||| operation == "RegQueryKey"@
    ||| operation == "RegQueryValue"@
    ||| operation == "RegEnumValue"@
    ||| operation == "RegEnumKey"@
    ||| operation == "RegSetInfoKey"@
    ||| operation == "RegFlushKey"@
    ||| operation == "RegLoadKey"@
    ||| operation == "RegUnloadKey"@
    ||| operation == "RegQueryMultipleValueKey"@
    ||| operation == "RegQueryKeySecurity"@
    ||| operation == "RegOpenKey2"@
    ||| operation == "RegRestorekey"@
    ||| operation == "RegSaveKey"@
}

/// Tells whether `operation` is one of them.
fn check_is_passive_registry_operation(operation: &str) -> (r: bool)
    ensures
        r == is_passive_registry_operation(operation@),
{
    same_text(operation, "RegOpenKey")
        || same_text(operation, "RegCloseKey")
        || same_text(operation, "RegQueryKey")
        || same_text(operation, "RegQueryValue")
        || same_text(operation, "RegEnumValue")
        || same_text(operation, "RegEnumKey")
        || same_text(operation, "RegSetInfoKey")
        || same_text(operation, "RegFlushKey")
        || same_text(operation, "RegLoadKey")
        || same_text(operation, "RegUnloadKey")
        || same_text(operation, "RegQueryMultipleValueKey")
        || same_text(operation, "RegQueryKeySecurity")
        || same_text(operation, "RegOpenKey2")
        || same_text(operation, "RegRestorekey")
        || same_text(operation, "RegSaveKey")
}

/// The operations that mount and unmount a volume, or are steps of a driver.
pub open spec fn is_passive_driver_operation(operation: Seq<char>) -> bool {
    ||| operation == "VolumeDismount"@
    ||| operation == "VolumeMount"@
    ||| operation == "FASTIO_MDL_READ_COMPLETE"@
    ||| operation == "FASTIO_MDL_READ"@
    ||| operation == "FASTIO_NETWORK_QUERY_OPEN"@
    ||| operation == "FASTIO_CHECK_IF_POSSIBLE"@
    ||| operation == "IRP_MJ_12"@
    ||| operation == "IRP_MJ_11"@
    ||| operation == "IRP_MJ_10"@
    ||| operation == "IRP_MJ_9"@
    ||| operation == "IRP_MJ_8"@
    ||| operation == "FASTIO_NOTIFY_STREAM_FO_CREATION"@
    ||| operation == "FASTIO_RELEASE_FOR_CC_FLUSH"@
    ||| operation == "FASTIO_ACQUIRE_FOR_CC_FLUSH"@
    ||| operation == "FASTIO_RELEASE_FOR_MOD_WRITE"@
    ||| operation == "FASTIO_ACQUIRE_FOR_MOD_WRITE"@
    ||| operation == "FASTIO_RELEASE_FOR_SECTION_SYNCHRONIZATION"@
}

/// Tells whether `operation` is one of them.
fn check_is_passive_driver_operation(operation: &str) -> (r: bool)
    ensures
        r == is_passive_driver_operation(operation@),
{
    same_text(operation, "VolumeDismount")
        || same_text(operation, "VolumeMount")
        || same_text(operation, "FASTIO_MDL_READ_COMPLETE")
        || same_text(operation, "FASTIO_MDL_READ")
        || same_text(operation, "FASTIO_NETWORK_QUERY_OPEN")
        || same_text(operation, "FASTIO_CHECK_IF_POSSIBLE")
        || same_text(operation, "IRP_MJ_12")
        || same_text(operation, "IRP_MJ_11")
        || same_text(operation, "IRP_MJ_10")
        || same_text(operation, "IRP_MJ_9")
        || same_text(operation, "IRP_MJ_8")
        || same_text(operation, "FASTIO_NOTIFY_STREAM_FO_CREATION")
        || same_text(operation, "FASTIO_RELEASE_FOR_CC_FLUSH")
        || same_text(operation, "FASTIO_ACQUIRE_FOR_CC_FLUSH")
        || same_text(operation, "FASTIO_RELEASE_FOR_MOD_WRITE")
        || same_text(operation, "FASTIO_ACQUIRE_FOR_MOD_WRITE")
        || same_text(operation, "FASTIO_RELEASE_FOR_SECTION_SYNCHRONIZATION")
}

/// The operations that open, close, read or ask about a file.
pub open spec fn is_passive_query_operation(operation: Seq<char>) -> bool {
    ||| operation == "CreateFileMapping"@
    ||| operation == "IRP_MJ_CLOSE"@
    ||| operation == "ReadFile"@
    ||| operation == "QueryInformationFile"@
    ||| operation == "QueryAllInformationFile"@
    ||| operation == "QueryAttributeTagFile"@
    ||| operation == "QueryBasicInformationFile"@
    ||| operation == "QueryCompressionInformationFile"@
    ||| operation == "QueryEaInformationFile"@
    ||| operation == "QueryFileInternalInformationFile"@
    ||| operation == "QueryMoveClusterInformationFile"@
    ||| operation == "QueryNetworkOpenInformationFile"@
    ||| operation == "QueryPositionInformationFile"@
    ||| operation == "QueryStandardInformationFile"@
    ||| operation == "QueryStreamInformationFile"@
    ||| operation == "QueryNameInformationFile"@
    ||| operation == "QueryShortNameInformationFile"@
    ||| operation == "QueryNormalizedNameInformationFile"@
    ||| operation == "QueryNetworkPhysicalNameInformationFile"@
    ||| operation == "QueryIdBothDirectory"@
    ||| operation == "QueryValidDataLength"@
    ||| operation == "QueryIoPiorityHint"@
    ||| operation == "QueryLinks"@
    ||| operation == "QueryId"@
    ||| operation == "QueryEndOfFile"@
    ||| operation == "QueryAttributeTag"@
    ||| operation == "QueryIdGlobalTxDirectoryInformation"@
    ||| operation == "QueryIsRemoteDeviceInformation"@
    ||| operation == "QueryAttributeCacheInformation,"@
    ||| operation == "QueryNumaNodeInformation"@
    ||| operation == "QueryStandardLinkInformation"@
    ||| operation == "QueryRemoteProtocolInformation"@
    ||| operation == "QueryRenameInformationBypassAccessCheck"@
    ||| operation == "QueryLinkInformationBypassAccessCheck"@
    ||| operation == "QueryVolumeNameInformation"@
    ||| operation == "QueryIdInformation"@
    ||| operation == "QueryIdExtdDirectoryInformation"@
    ||| operation == "QueryHardLinkFullIdInformation"@
    ||| operation == "QueryIdExtdBothDirectoryInformation"@
    ||| operation == "QueryDesiredStorageClassInformation"@
    ||| operation == "QueryStatInformation"@
    ||| operation == "QueryMemoryPartitionInformation"@
    ||| operation == "QuerySatLxInformation"@
    ||| operation == "QueryCaseSensitiveInformation"@
    ||| operation == "QueryLinkInformationEx"@
    ||| operation == "QueryLinkInfomraitonBypassAccessCheck"@
    ||| operation == "QueryStorageReservedIdInformation"@
    ||| operation == "QueryCaseSensitiveInformationForceAccessCheck"@
}

/// Tells whether `operation` is one of them.
fn check_is_passive_query_operation(operation: &str) -> (r: bool)
    ensures
        r == is_passive_query_operation(operation@),
{
    same_text(operation, "CreateFileMapping")
        || same_text(operation, "IRP_MJ_CLOSE")
        || same_text(operation, "ReadFile")
        || same_text(operation, "QueryInformationFile")
        || same_text(operation, "QueryAllInformationFile")
        || same_text(operation, "QueryAttributeTagFile")
        || same_text(operation, "QueryBasicInformationFile")
        || same_text(operation, "QueryCompressionInformationFile")
        || same_text(operation, "QueryEaInformationFile")
        || same_text(operation, "QueryFileInternalInformationFile")
        || same_text(operation, "QueryMoveClusterInformationFile")
        || same_text(operation, "QueryNetworkOpenInformationFile")
        || same_text(operation, "QueryPositionInformationFile")
        || same_text(operation, "QueryStandardInformationFile")
        || same_text(operation, "QueryStreamInformationFile")
        || same_text(operation, "QueryNameInformationFile")
        || same_text(operation, "QueryShortNameInformationFile")
        || same_text(operation, "QueryNormalizedNameInformationFile")
        || same_text(operation, "QueryNetworkPhysicalNameInformationFile")
        || same_text(operation, "QueryIdBothDirectory")
        || same_text(operation, "QueryValidDataLength")
        || same_text(operation, "QueryIoPiorityHint")
        || same_text(operation, "QueryLinks")
        || same_text(operation, "QueryId")
        || same_text(operation, "QueryEndOfFile")
        || same_text(operation, "QueryAttributeTag")
        || same_text(operation, "QueryIdGlobalTxDirectoryInformation")
        || same_text(operation, "QueryIsRemoteDeviceInformation")
        || same_text(operation, "QueryAttributeCacheInformation,")
        || same_text(operation, "QueryNumaNodeInformation")
        || same_text(operation, "QueryStandardLinkInformation")
        || same_text(operation, "QueryRemoteProtocolInformation")
        || same_text(operation, "QueryRenameInformationBypassAccessCheck")
        || same_text(operation, "QueryLinkInformationBypassAccessCheck")
        || same_text(operation, "QueryVolumeNameInformation")
        || same_text(operation, "QueryIdInformation")
        || same_text(operation, "QueryIdExtdDirectoryInformation")
        || same_text(operation, "QueryHardLinkFullIdInformation")
        || same_text(operation, "QueryIdExtdBothDirectoryInformation")
        || same_text(operation, "QueryDesiredStorageClassInformation")
        || same_text(operation, "QueryStatInformation")
        || same_text(operation, "QueryMemoryPartitionInformation")
        || same_text(operation, "QuerySatLxInformation")
        || same_text(operation, "QueryCaseSensitiveInformation")
        || same_text(operation, "QueryLinkInformationEx")
        || same_text(operation, "QueryLinkInfomraitonBypassAccessCheck")
        || same_text(operation, "QueryStorageReservedIdInformation")
        || same_text(operation, "QueryCaseSensitiveInformationForceAccessCheck")
}

/// The operations that ask about a volume, a directory or a lock, or change what is not tracked of a file.
pub open spec fn is_passive_control_operation(operation: Seq<char>) -> bool {
    ||| operation == "SetInformationFile"@
    ||| operation == "QueryEAFile"@
    ||| operation == "FlushBuffersFile"@
    ||| operation == "QueryVolumeInformation"@
    ||| operation == "QueryInformationVolume"@
    ||| operation == "QueryLabelInformationVolume"@
    ||| operation == "QuerySizeInformationVolume"@
    ||| operation == "QueryDeviceInformationVolume"@
    ||| operation == "QueryAttributeInformationVolume"@
    ||| operation == "QueryControlInformationVolume"@
    ||| operation == "QueryFullSizeInformationVolume"@
    ||| operation == "QueryObjectIdInformationVolume"@
    ||| operation == "SetVolumeInformation"@
    ||| operation == "DirectoryControl"@
    ||| operation == "QueryDirectory"@
    ||| operation == "NotifyChangeDirectory"@
    ||| operation == "FileSystemControl"@
    ||| operation == "DeviceIoControl"@
    ||| operation == "InternalDeviceIoControl"@
    ||| operation == "Shutdown"@
    ||| operation == "LockUnlockFile"@
    ||| operation == "LockFile"@
    ||| operation == "UnlockFileSingle"@
    ||| operation == "UnlockFileAll"@
    ||| operation == "UnlockFileByKey"@
    ||| operation == "CloseFile"@
    ||| operation == "QuerySecurityFile"@
    ||| operation == "SetSecurityFile"@
}

/// Tells whether `operation` is one of them.
fn check_is_passive_control_operation(operation: &str) -> (r: bool)
    ensures
        r == is_passive_control_operation(operation@),
{
    same_text(operation, "SetInformationFile")
        || same_text(operation, "QueryEAFile")
        || same_text(operation, "FlushBuffersFile")
        || same_text(operation, "QueryVolumeInformation")
        || same_text(operation, "QueryInformationVolume")
        || same_text(operation, "QueryLabelInformationVolume")
        || same_text(operation, "QuerySizeInformationVolume")
        || same_text(operation, "QueryDeviceInformationVolume")
        || same_text(operation, "QueryAttributeInformationVolume")
        || same_text(operation, "QueryControlInformationVolume")
        || same_text(operation, "QueryFullSizeInformationVolume")
        || same_text(operation, "QueryObjectIdInformationVolume")
        || same_text(operation, "SetVolumeInformation")
        || same_text(operation, "DirectoryControl")
        || same_text(operation, "QueryDirectory")
        || same_text(operation, "NotifyChangeDirectory")
        || same_text(operation, "FileSystemControl")
        || same_text(operation, "DeviceIoControl")
        || same_text(operation, "InternalDeviceIoControl")
        || same_text(operation, "Shutdown")
        || same_text(operation, "LockUnlockFile")
        || same_text(operation, "LockFile")
        || same_text(operation, "UnlockFileSingle")
        || same_text(operation, "UnlockFileAll")
        || same_text(operation, "UnlockFileByKey")
        || same_text(operation, "CloseFile")
        || same_text(operation, "QuerySecurityFile")
        || same_text(operation, "SetSecurityFile")
}

/// The operations that are about devices.
pub open spec fn is_passive_device_operation(operation: Seq<char>) -> bool {
    ||| operation == "Power"@
    ||| operation == "SystemControl"@
    ||| operation == "DeviceChange"@
    ||| operation == "QueryFileQuota"@
    ||| operation == "SetFileQuota"@
    ||| operation == "PlugAndPlay"@
    ||| operation == "StartDevice"@
    ||| operation == "QueryRemoveDevice"@
    ||| operation == "RemoveDevice"@
    ||| operation == "CancelRemoveDevice"@
    ||| operation == "StopDevice"@
    ||| operation == "QueryStopDevice"@
    ||| operation == "CancelStopDevice"@
    ||| operation == "QueryDeviceRelations"@
    ||| operation == "QueryInterface"@
    ||| operation == "QueryCapabilities"@
    ||| operation == "QueryResources"@
    ||| operation == "QueryResourceRequirements"@
    ||| operation == "QueryDeviceText"@
    ||| operation == "FilterResourceRequirements"@
    ||| operation == "ReadConfig"@
    ||| operation == "WriteConfig"@
    ||| operation == "Eject"@
    ||| operation == "SetLock"@
    ||| operation == "QueryPnpDeviceState"@
    ||| operation == "QueryBusInformation"@
    ||| operation == "DeviceUsageNotification"@
    ||| operation == "SurpriseRemoval"@
    ||| operation == "QueryLegacyBusInformation"@
    ||| operation == "IRP_MJ_MAXIMUM_FUNCTION"@
}

/// Tells whether `operation` is one of them.
fn check_is_passive_device_operation(operation: &str) -> (r: bool)
    ensures
        r == is_passive_device_operation(operation@),
{
    same_text(operation, "Power")
        || same_text(operation, "SystemControl")
        || same_text(operation, "DeviceChange")
        || same_text(operation, "QueryFileQuota")
        || same_text(operation, "SetFileQuota")
        || same_text(operation, "PlugAndPlay")
        || same_text(operation, "StartDevice")
        || same_text(operation, "QueryRemoveDevice")
        || same_text(operation, "RemoveDevice")
        || same_text(operation, "CancelRemoveDevice")
        || same_text(operation, "StopDevice")
        || same_text(operation, "QueryStopDevice")
        || same_text(operation, "CancelStopDevice")
        || same_text(operation, "QueryDeviceRelations")
        || same_text(operation, "QueryInterface")
        || same_text(operation, "QueryCapabilities")
        || same_text(operation, "QueryResources")
        || same_text(operation, "QueryResourceRequirements")
        || same_text(operation, "QueryDeviceText")
        || same_text(operation, "FilterResourceRequirements")
        || same_text(operation, "ReadConfig")
        || same_text(operation, "WriteConfig")
        || same_text(operation, "Eject")
        || same_text(operation, "SetLock")
        || same_text(operation, "QueryPnpDeviceState")
        || same_text(operation, "QueryBusInformation")
        || same_text(operation, "DeviceUsageNotification")
        || same_text(operation, "SurpriseRemoval")
        || same_text(operation, "QueryLegacyBusInformation")
        || same_text(operation, "IRP_MJ_MAXIMUM_FUNCTION")
}

/// The operations that change a file.
pub open spec fn is_modifying_operation(operation: Seq<char>) -> bool {
    ||| operation == "FASTIO_MDL_WRITE_COMPLETE"@
    ||| operation == "FASTIO_PREPARE_MDL_WRITE"@
    ||| operation == "WriteFile"@
    ||| operation == "SetAllocationInformationFile"@
    ||| operation == "SetDispositionInformationFile"@
    ||| operation == "SetEndOfFileInformationFile"@
    ||| operation == "SetLinkInformationFile"@
    ||| operation == "SetPositionInformationFile"@
    ||| operation == "SetRenameInformationFile"@
    ||| operation == "SetValidDataLengthInformationFile"@
    ||| operation == "SetFileStreamInformation"@
    ||| operation == "SetPipeInformation"@
    ||| operation == "SetShortNameInformation"@
    ||| operation == "SetDispositionInformationEx"@
    ||| operation == "SetReplaceCompletionInformation"@
    ||| operation == "SetStorageReservedIdInformation"@
    ||| operation == "SetEAFile"@
}

/// Tells whether `operation` is one of them.
fn check_is_modifying_operation(operation: &str) -> (r: bool)
    ensures
        r == is_modifying_operation(operation@),
{
    same_text(operation, "FASTIO_MDL_WRITE_COMPLETE")
        || same_text(operation, "FASTIO_PREPARE_MDL_WRITE")
        || same_text(operation, "WriteFile")
        || same_text(operation, "SetAllocationInformationFile")
        || same_text(operation, "SetDispositionInformationFile")
        || same_text(operation, "SetEndOfFileInformationFile")
        || same_text(operation, "SetLinkInformationFile")
        || same_text(operation, "SetPositionInformationFile")
        || same_text(operation, "SetRenameInformationFile")
        || same_text(operation, "SetValidDataLengthInformationFile")
        || same_text(operation, "SetFileStreamInformation")
        || same_text(operation, "SetPipeInformation")
        || same_text(operation, "SetShortNameInformation")
        || same_text(operation, "SetDispositionInformationEx")
        || same_text(operation, "SetReplaceCompletionInformation")
        || same_text(operation, "SetStorageReservedIdInformation")
        || same_text(operation, "SetEAFile")
}

/// The operations that change nothing that is tracked of a file.
pub open spec fn is_passive_operation(operation: Seq<char>) -> bool {
    ||| is_passive_driver_operation(operation)
    ||| is_passive_query_operation(operation)
    ||| is_passive_control_operation(operation)
    ||| is_passive_device_operation(operation)
}

/// The operations that create what they are about.
pub open spec fn is_creating_operation(operation: Seq<char>) -> bool {
    ||| operation == "CreatePipe"@
    ||| operation == "CreateMailSlot"@
}

/// The operations that rename a file and may tell its new name.
pub open spec fn is_renaming_operation(operation: Seq<char>) -> bool {
    ||| operation == "SetRenameInformationEx"@
    ||| operation == "SetRenameInformationExBypassAccessCheck"@
}

/// Tells whether `operation` is one of them.
pub fn check_is_renaming_operation(operation: &str) -> (r: bool)
    ensures
        r == is_renaming_operation(operation@),
{
    same_text(operation, "SetRenameInformationEx")
        || same_text(operation, "SetRenameInformationExBypassAccessCheck")
}

/// The value of the detail `key`.
pub open spec fn detail(details: Map<Seq<char>, Seq<char>>, key: Seq<char>) -> Option<Seq<char>> {
    if details.dom().contains(key) {
        Some(details[key])
    } else {
        None
    }
}

/// What opening a file did to it.
pub open spec fn open_effect(open_result: Option<Seq<char>>) -> ItemMetadata {
    if open_result == Some("Created"@) {
        only(ItemAction::Create)
    } else if open_result == Some("Superseded"@) {
        ItemMetadata { created: true, deleted: true, ..untouched() }
    } else if open_result == Some("Overwritten"@) {
        only(ItemAction::Modify)
    } else {
        untouched()
    }
}

/// What the file system operation `operation` does to its file; `None` if the
/// operation is not known.
pub open spec fn file_effect(
    operation: Seq<char>,
    details: Map<Seq<char>, Seq<char>>,
) -> Option<ItemMetadata> {
    if operation == "CreateFile"@ {
        Some(open_effect(detail(details, "OpenResult"@)))
    } else if is_creating_operation(operation) {
        Some(only(ItemAction::Create))
    } else if is_modifying_operation(operation) {
        Some(only(ItemAction::Modify))
    } else if is_renaming_operation(operation) {
        Some(only(ItemAction::Rename))
    } else if is_passive_operation(operation) {
        Some(untouched())
    } else {
        None
    }
}

/// What the registry operation `operation` does to its key; `None` if it is no
/// operation of the registry.
pub open spec fn registry_effect(
    operation: Seq<char>,
    details: Map<Seq<char>, Seq<char>>,
) -> Option<ItemMetadata> {
    if operation == "RegCreateKey"@ {
        if detail(details, "Disposition"@) == Some("REG_CREATED_NEW_KEY"@) {
            Some(only(ItemAction::Create))
        } else {
            Some(untouched())
        }
    } else if operation == "RegSetValue"@ {
        Some(ItemMetadata { created: true, modified: true, ..untouched() })
    } else if operation == "RegDeleteKey"@ || operation == "RegDeleteValue"@ {
        Some(only(ItemAction::Delete))
    } else if operation == "RegRenameKey"@ {
        Some(only(ItemAction::Rename))
    } else if operation == "RegSetKeySecurity"@ {
        Some(only(ItemAction::Modify))
    } else if is_passive_registry_operation(operation) {
        Some(untouched())
    } else {
        None
    }
}

/// Tells whether the detail `key` has the value `value`.
fn detail_is(details: &Details, key: &str, value: &str) -> (r: bool)
    ensures
        r == (detail(details@, key@) == Some(value@)),
{
    match details.get(key) {
        Some(found) => same_text(found, value),
        None => false,
    }
}

/// What the file system operation `operation` does to its file.
pub fn classify_file_operation(operation: &str, details: &Details) -> (r: Option<ItemMetadata>)
    ensures
        r == file_effect(operation@, details@),
{
    if same_text(operation, "CreateFile") {
        let meta: ItemMetadata = ItemMetadata::default();
        if detail_is(details, "OpenResult", "Created") {
            Some(meta.create(true))
        } else if detail_is(details, "OpenResult", "Superseded") {
            Some(meta.create(true).delete(true))
        } else if detail_is(details, "OpenResult", "Overwritten") {
            Some(meta.modify(true))
        } else {
            Some(meta)
        }
    } else if same_text(operation, "CreatePipe") || same_text(operation, "CreateMailSlot") {
        Some(ItemMetadata::from(ItemAction::Create))
    } else if check_is_modifying_operation(operation) {
        Some(ItemMetadata::from(ItemAction::Modify))
    } else if check_is_renaming_operation(operation) {
        Some(ItemMetadata::from(ItemAction::Rename))
    } else if check_is_passive_driver_operation(operation) || check_is_passive_query_operation(
        operation,
    ) || check_is_passive_control_operation(operation) || check_is_passive_device_operation(
        operation,
    ) {
        Some(ItemMetadata::default())
    } else {
        None
    }
}

/// What the registry operation `operation` does to its key.
pub fn classify_registry_operation(operation: &str, details: &Details) -> (r: Option<ItemMetadata>)
    ensures
        r == registry_effect(operation@, details@),
{
    if same_text(operation, "RegCreateKey") {
        if detail_is(details, "Disposition", "REG_CREATED_NEW_KEY") {
            Some(ItemMetadata::from(ItemAction::Create))
        } else {
            Some(ItemMetadata::default())
        }
    } else if same_text(operation, "RegSetValue") {
        Some(ItemMetadata::default().create(true).modify(true))
    } else if same_text(operation, "RegDeleteKey") || same_text(operation, "RegDeleteValue") {
        Some(ItemMetadata::from(ItemAction::Delete))
    } else if same_text(operation, "RegRenameKey") {
        Some(ItemMetadata::from(ItemAction::Rename))
    } else if same_text(operation, "RegSetKeySecurity") {
        Some(ItemMetadata::from(ItemAction::Modify))
    } else if check_is_passive_registry_operation(operation) {
        Some(ItemMetadata::default())
    } else {
        None
    }
}

} // verus!
