//! What the operations of a recording do, name by name.

use vstd::prelude::*;

use crate::item::{ItemAction, ItemMetadata};
use crate::monitor::details::Details;
use crate::monitor::operations::{
    classify_file_operation, classify_registry_operation, file_effect, registry_effect,
};

verus! {

/// The detail `key` has the value `value`.
pub open spec fn says(
    details: Map<Seq<char>, Seq<char>>,
    key: Seq<char>,
    value: Seq<char>,
) -> bool {
    details.dom().contains(key) && details[key] == value
}

/// The operations that change the contents of a file or what is kept beside them.
pub open spec fn writes(operation: Seq<char>) -> bool {
    ||| operation == "FASTIO_MDL_WRITE_COMPLETE"@
    ||| operation == "FASTIO_PREPARE_MDL_WRITE"@
    ||| operation == "WriteFile"@
    ||| operation == "SetAllocationInformationFile"@
    ||| operation == "SetDispositionInformationFile"@
    ||| operation == "SetEndOfFileInformationFile"@
    ||| operation == "SetLinkInformationFile"@
    ||| operation == "SetPositionInformationFile"@
    ||| operation == "SetRenameInformationFile"@
    ||| operation == "SetValidDataLengthInformationFile"@
    ||| operation == "SetFileStreamInformation"@
    ||| operation == "SetPipeInformation"@
    ||| operation == "SetShortNameInformation"@
    ||| operation == "SetDispositionInformationEx"@
    ||| operation == "SetReplaceCompletionInformation"@
    ||| operation == "SetStorageReservedIdInformation"@
    ||| operation == "SetEAFile"@
}

/// The operations that make what they are about.
pub open spec fn makes(operation: Seq<char>) -> bool {
    ||| operation == "CreatePipe"@
    ||| operation == "CreateMailSlot"@
}

/// The operations that give a file another name.
pub open spec fn renames(operation: Seq<char>) -> bool {
    ||| operation == "SetRenameInformationEx"@
    ||| operation == "SetRenameInformationExBypassAccessCheck"@
}

/// The operations that leave a file as it is.
pub open spec fn leaves(operation: Seq<char>) -> bool {
    ||| operation == "VolumeDismount"@
    ||| operation == "VolumeMount"@
    ||| operation == "FASTIO_MDL_READ_COMPLETE"@
    ||| operation == "FASTIO_MDL_READ"@
    ||| operation == "FASTIO_NETWORK_QUERY_OPEN"@
    ||| operation == "FASTIO_CHECK_IF_POSSIBLE"@
    ||| operation == "IRP_MJ_12"@
    ||| operation == "IRP_MJ_11"@
    ||| operation == "IRP_MJ_10"@
    ||| operation == "IRP_MJ_9"@
    ||| operation == "IRP_MJ_8"@
    ||| operation == "FASTIO_NOTIFY_STREAM_FO_CREATION"@
    ||| operation == "FASTIO_RELEASE_FOR_CC_FLUSH"@
    ||| operation == "FASTIO_ACQUIRE_FOR_CC_FLUSH"@
    ||| operation == "FASTIO_RELEASE_FOR_MOD_WRITE"@
    ||| operation == "FASTIO_ACQUIRE_FOR_MOD_WRITE"@
    ||| operation == "FASTIO_RELEASE_FOR_SECTION_SYNCHRONIZATION"@
    ||| operation == "CreateFileMapping"@
    ||| operation == "IRP_MJ_CLOSE"@
    ||| operation == "ReadFile"@
    ||| operation == "QueryInformationFile"@
    ||| operation == "QueryAllInformationFile"@
    ||| operation == "QueryAttributeTagFile"@
    ||| operation == "QueryBasicInformationFile"@
    ||| operation == "QueryCompressionInformationFile"@
    ||| operation == "QueryEaInformationFile"@
    ||| operation == "QueryFileInternalInformationFile"@
    ||| operation == "QueryMoveClusterInformationFile"@
    ||| operation == "QueryNetworkOpenInformationFile"@
    ||| operation == "QueryPositionInformationFile"@
    ||| operation == "QueryStandardInformationFile"@
    ||| operation == "QueryStreamInformationFile"@
    ||| operation == "QueryNameInformationFile"@
    ||| operation == "QueryShortNameInformationFile"@
    ||| operation == "QueryNormalizedNameInformationFile"@
    ||| operation == "QueryNetworkPhysicalNameInformationFile"@
    ||| operation == "QueryIdBothDirectory"@
    ||| operation == "QueryValidDataLength"@
    ||| operation == "QueryIoPiorityHint"@
    ||| operation == "QueryLinks"@
    ||| operation == "QueryId"@
    ||| operation == "QueryEndOfFile"@
    ||| operation == "QueryAttributeTag"@
    ||| operation == "QueryIdGlobalTxDirectoryInformation"@
    ||| operation == "QueryIsRemoteDeviceInformation"@
    ||| operation == "QueryAttributeCacheInformation,"@
    ||| operation == "QueryNumaNodeInformation"@
    ||| operation == "QueryStandardLinkInformation"@
    ||| operation == "QueryRemoteProtocolInformation"@
    ||| operation == "QueryRenameInformationBypassAccessCheck"@
    ||| operation == "QueryLinkInformationBypassAccessCheck"@
    ||| operation == "QueryVolumeNameInformation"@
    ||| operation == "QueryIdInformation"@
    ||| operation == "QueryIdExtdDirectoryInformation"@
    ||| operation == "QueryHardLinkFullIdInformation"@
    ||| operation == "QueryIdExtdBothDirectoryInformation"@
    ||| operation == "QueryDesiredStorageClassInformation"@
    ||| operation == "QueryStatInformation"@
    ||| operation == "QueryMemoryPartitionInformation"@
    ||| operation == "QuerySatLxInformation"@
    ||| operation == "QueryCaseSensitiveInformation"@
    ||| operation == "QueryLinkInformationEx"@
    ||| operation == "QueryLinkInfomraitonBypassAccessCheck"@
    ||| operation == "QueryStorageReservedIdInformation"@
    ||| operation == "QueryCaseSensitiveInformationForceAccessCheck"@
    ||| operation == "SetInformationFile"@
    ||| operation == "QueryEAFile"@
    ||| operation == "FlushBuffersFile"@
    ||| operation == "QueryVolumeInformation"@
    ||| operation == "QueryInformationVolume"@
    ||| operation == "QueryLabelInformationVolume"@
    ||| operation == "QuerySizeInformationVolume"@
    ||| operation == "QueryDeviceInformationVolume"@
    ||| operation == "QueryAttributeInformationVolume"@
    ||| operation == "QueryControlInformationVolume"@
    ||| operation == "QueryFullSizeInformationVolume"@
    ||| operation == "QueryObjectIdInformationVolume"@
    ||| operation == "SetVolumeInformation"@
    ||| operation == "DirectoryControl"@
    ||| operation == "QueryDirectory"@
    ||| operation == "NotifyChangeDirectory"@
    ||| operation == "FileSystemControl"@
    ||| operation == "DeviceIoControl"@
    ||| operation == "InternalDeviceIoControl"@
    ||| operation == "Shutdown"@
    ||| operation == "LockUnlockFile"@
    ||| operation == "LockFile"@
    ||| operation == "UnlockFileSingle"@
    ||| operation == "UnlockFileAll"@
    ||| operation == "UnlockFileByKey"@
    ||| operation == "CloseFile"@
    ||| operation == "QuerySecurityFile"@
    ||| operation == "SetSecurityFile"@
    ||| operation == "Power"@
    ||| operation == "SystemControl"@
    ||| operation == "DeviceChange"@
    ||| operation == "QueryFileQuota"@
    ||| operation == "SetFileQuota"@
    ||| operation == "PlugAndPlay"@
    ||| operation == "StartDevice"@
    ||| operation == "QueryRemoveDevice"@
    ||| operation == "RemoveDevice"@
    ||| operation == "CancelRemoveDevice"@
    ||| operation == "StopDevice"@
    ||| operation == "QueryStopDevice"@
    ||| operation == "CancelStopDevice"@
    ||| operation == "QueryDeviceRelations"@
    ||| operation == "QueryInterface"@
    ||| operation == "QueryCapabilities"@
    ||| operation == "QueryResources"@
    ||| operation == "QueryResourceRequirements"@
    ||| operation == "QueryDeviceText"@
    ||| operation == "FilterResourceRequirements"@
    ||| operation == "ReadConfig"@
    ||| operation == "WriteConfig"@
    ||| operation == "Eject"@
    ||| operation == "SetLock"@
    ||| operation == "QueryPnpDeviceState"@
    ||| operation == "QueryBusInformation"@
    ||| operation == "DeviceUsageNotification"@
    ||| operation == "SurpriseRemoval"@
    ||| operation == "QueryLegacyBusInformation"@
    ||| operation == "IRP_MJ_MAXIMUM_FUNCTION"@
}

/// The operations of the registry that leave a key as it is.
pub open spec fn leaves_key(operation: Seq<char>) -> bool {
    ||| operation == "RegOpenKey"@
    ||| operation == "RegCloseKey"@
    ||| operation == "RegQueryKey"@
    ||| operation == "RegQueryValue"@
    ||| operation == "RegEnumValue"@
    ||| operation == "RegEnumKey"@
    ||| operation == "RegSetInfoKey"@
    ||| operation == "RegFlushKey"@
    ||| operation == "RegLoadKey"@
    ||| operation == "RegUnloadKey"@
    ||| operation == "RegQueryMultipleValueKey"@
    ||| operation == "RegQueryKeySecurity"@
    ||| operation == "RegOpenKey2"@
    ||| operation == "RegRestorekey"@
    ||| operation == "RegSaveKey"@
}

proof fn lemma_file_names_differ(operation: Seq<char>)
    ensures
        operation == "CreateFile"@ ==> !writes(operation) && !makes(operation) && !renames(
            operation,
        ),
        makes(operation) ==> !writes(operation) && !renames(operation),
        renames(operation) ==> !writes(operation),
{
    reveal_strlit("CreateFile");
    assert("CreateFile"@.len() == 10);
    assert("CreateFile"@[6] == 'F');
    reveal_strlit("FASTIO_MDL_WRITE_COMPLETE");
    assert("FASTIO_MDL_WRITE_COMPLETE"@.len() == 25);
    reveal_strlit("FASTIO_PREPARE_MDL_WRITE");
    assert("FASTIO_PREPARE_MDL_WRITE"@.len() == 24);
    assert("FASTIO_PREPARE_MDL_WRITE"@[0] == 'F');
    reveal_strlit("WriteFile");
    assert("WriteFile"@.len() == 9);
    assert("WriteFile"@[0] == 'W');
    reveal_strlit("SetAllocationInformationFile");
    assert("SetAllocationInformationFile"@.len() == 28);
    reveal_strlit("SetDispositionInformationFile");
    assert("SetDispositionInformationFile"@.len() == 29);
    reveal_strlit("SetEndOfFileInformationFile");
    assert("SetEndOfFileInformationFile"@.len() == 27);
    assert("SetEndOfFileInformationFile"@[3] == 'E');
    reveal_strlit("SetLinkInformationFile");
    assert("SetLinkInformationFile"@.len() == 22);
    assert("SetLinkInformationFile"@[3] == 'L');
    reveal_strlit("SetPositionInformationFile");
    assert("SetPositionInformationFile"@.len() == 26);
    reveal_strlit("SetRenameInformationFile");
    assert("SetRenameInformationFile"@.len() == 24);
    assert("SetRenameInformationFile"@[0] == 'S');
    assert("SetRenameInformationFile"@[3] == 'R');
    reveal_strlit("SetValidDataLengthInformationFile");
    assert("SetValidDataLengthInformationFile"@.len() == 33);
    reveal_strlit("SetFileStreamInformation");
    assert("SetFileStreamInformation"@.len() == 24);
    assert("SetFileStreamInformation"@[0] == 'S');
    assert("SetFileStreamInformation"@[3] == 'F');
    reveal_strlit("SetPipeInformation");
    assert("SetPipeInformation"@.len() == 18);
    reveal_strlit("SetShortNameInformation");
    assert("SetShortNameInformation"@.len() == 23);
    reveal_strlit("SetDispositionInformationEx");
    assert("SetDispositionInformationEx"@.len() == 27);
    assert("SetDispositionInformationEx"@[3] == 'D');
    reveal_strlit("SetReplaceCompletionInformation");
    assert("SetReplaceCompletionInformation"@.len() == 31);
    assert("SetReplaceCompletionInformation"@[3] == 'R');
    reveal_strlit("SetStorageReservedIdInformation");
    assert("SetStorageReservedIdInformation"@.len() == 31);
    assert("SetStorageReservedIdInformation"@[3] == 'S');
    reveal_strlit("SetEAFile");
    assert("SetEAFile"@.len() == 9);
    assert("SetEAFile"@[0] == 'S');
    reveal_strlit("CreatePipe");
    assert("CreatePipe"@.len() == 10);
    assert("CreatePipe"@[6] == 'P');
    reveal_strlit("CreateMailSlot");
    assert("CreateMailSlot"@.len() == 14);
    reveal_strlit("SetRenameInformationEx");
    assert("SetRenameInformationEx"@.len() == 22);
    assert("SetRenameInformationEx"@[3] == 'R');
    reveal_strlit("SetRenameInformationExBypassAccessCheck");
    assert("SetRenameInformationExBypassAccessCheck"@.len() == 39);
}

proof fn lemma_passive_names_differ(operation: Seq<char>)
    requires
        leaves(operation),
    ensures
        operation != "CreateFile"@,
        !writes(operation),
        !makes(operation),
        !renames(operation),
{
    reveal_strlit("CreateFile");
    assert("CreateFile"@.len() == 10);
    assert("CreateFile"@[0] == 'C');
    reveal_strlit("FASTIO_MDL_WRITE_COMPLETE");
    assert("FASTIO_MDL_WRITE_COMPLETE"@.len() == 25);
    assert("FASTIO_MDL_WRITE_COMPLETE"@[7] == 'M');
    reveal_strlit("FASTIO_PREPARE_MDL_WRITE");
    assert("FASTIO_PREPARE_MDL_WRITE"@.len() == 24);
    assert("FASTIO_PREPARE_MDL_WRITE"@[7] == 'P');
    reveal_strlit("WriteFile");
    assert("WriteFile"@.len() == 9);
    assert("WriteFile"@[0] == 'W');
    reveal_strlit("SetAllocationInformationFile");
    assert("SetAllocationInformationFile"@.len() == 28);
    assert("SetAllocationInformationFile"@[0] == 'S');
    reveal_strlit("SetDispositionInformationFile");
    assert("SetDispositionInformationFile"@.len() == 29);
    assert("SetDispositionInformationFile"@[0] == 'S');
    reveal_strlit("SetEndOfFileInformationFile");
    assert("SetEndOfFileInformationFile"@.len() == 27);
    assert("SetEndOfFileInformationFile"@[0] == 'S');
    reveal_strlit("SetLinkInformationFile");
    assert("SetLinkInformationFile"@.len() == 22);
    assert("SetLinkInformationFile"@[0] == 'S');
    reveal_strlit("SetPositionInformationFile");
    assert("SetPositionInformationFile"@.len() == 26);
    assert("SetPositionInformationFile"@[0] == 'S');
    reveal_strlit("SetRenameInformationFile");
    assert("SetRenameInformationFile"@.len() == 24);
    assert("SetRenameInformationFile"@[0] == 'S');
    assert("SetRenameInformationFile"@[7] == 'm');
    reveal_strlit("SetValidDataLengthInformationFile");
    assert("SetValidDataLengthInformationFile"@.len() == 33);
    assert("SetValidDataLengthInformationFile"@[0] == 'S');
    reveal_strlit("SetFileStreamInformation");
    assert("SetFileStreamInformation"@.len() == 24);
    assert("SetFileStreamInformation"@[7] == 'S');
    reveal_strlit("SetPipeInformation");
    assert("SetPipeInformation"@.len() == 18);
    assert("SetPipeInformation"@[0] == 'S');
    assert("SetPipeInformation"@[3] == 'P');
    reveal_strlit("SetShortNameInformation");
    assert("SetShortNameInformation"@.len() == 23);
    assert("SetShortNameInformation"@[0] == 'S');
    reveal_strlit("SetDispositionInformationEx");
    assert("SetDispositionInformationEx"@.len() == 27);
    assert("SetDispositionInformationEx"@[0] == 'S');
    reveal_strlit("SetReplaceCompletionInformation");
    assert("SetReplaceCompletionInformation"@.len() == 31);
    assert("SetReplaceCompletionInformation"@[0] == 'S');
    reveal_strlit("SetStorageReservedIdInformation");
    assert("SetStorageReservedIdInformation"@.len() == 31);
    assert("SetStorageReservedIdInformation"@[0] == 'S');
    reveal_strlit("SetEAFile");
    assert("SetEAFile"@.len() == 9);
    assert("SetEAFile"@[0] == 'S');
    reveal_strlit("CreatePipe");
    assert("CreatePipe"@.len() == 10);
    assert("CreatePipe"@[0] == 'C');
    reveal_strlit("CreateMailSlot");
    assert("CreateMailSlot"@.len() == 14);
    assert("CreateMailSlot"@[0] == 'C');
    reveal_strlit("SetRenameInformationEx");
    assert("SetRenameInformationEx"@.len() == 22);
    assert("SetRenameInformationEx"@[0] == 'S');
    reveal_strlit("SetRenameInformationExBypassAccessCheck");
    assert("SetRenameInformationExBypassAccessCheck"@.len() == 39);
    assert("SetRenameInformationExBypassAccessCheck"@[0] == 'S');
    reveal_strlit("VolumeDismount");
    assert("VolumeDismount"@.len() == 14);
    assert("VolumeDismount"@[0] == 'V');
    reveal_strlit("VolumeMount");
    assert("VolumeMount"@.len() == 11);
    reveal_strlit("FASTIO_MDL_READ_COMPLETE");
    assert("FASTIO_MDL_READ_COMPLETE"@.len() == 24);
    assert("FASTIO_MDL_READ_COMPLETE"@[7] == 'M');
    reveal_strlit("FASTIO_MDL_READ");
    assert("FASTIO_MDL_READ"@.len() == 15);
    reveal_strlit("FASTIO_NETWORK_QUERY_OPEN");
    assert("FASTIO_NETWORK_QUERY_OPEN"@.len() == 25);
    assert("FASTIO_NETWORK_QUERY_OPEN"@[7] == 'N');
    reveal_strlit("FASTIO_CHECK_IF_POSSIBLE");
    assert("FASTIO_CHECK_IF_POSSIBLE"@.len() == 24);
    assert("FASTIO_CHECK_IF_POSSIBLE"@[7] == 'C');
    reveal_strlit("IRP_MJ_12");
    assert("IRP_MJ_12"@.len() == 9);
    assert("IRP_MJ_12"@[0] == 'I');
    reveal_strlit("IRP_MJ_11");
    assert("IRP_MJ_11"@.len() == 9);
    assert("IRP_MJ_11"@[0] == 'I');
    reveal_strlit("IRP_MJ_10");
    assert("IRP_MJ_10"@.len() == 9);
    assert("IRP_MJ_10"@[0] == 'I');
    reveal_strlit("IRP_MJ_9");
    assert("IRP_MJ_9"@.len() == 8);
    reveal_strlit("IRP_MJ_8");
    assert("IRP_MJ_8"@.len() == 8);
    reveal_strlit("FASTIO_NOTIFY_STREAM_FO_CREATION");
    assert("FASTIO_NOTIFY_STREAM_FO_CREATION"@.len() == 32);
    reveal_strlit("FASTIO_RELEASE_FOR_CC_FLUSH");
    assert("FASTIO_RELEASE_FOR_CC_FLUSH"@.len() == 27);
    assert("FASTIO_RELEASE_FOR_CC_FLUSH"@[0] == 'F');
    reveal_strlit("FASTIO_ACQUIRE_FOR_CC_FLUSH");
    assert("FASTIO_ACQUIRE_FOR_CC_FLUSH"@.len() == 27);
    assert("FASTIO_ACQUIRE_FOR_CC_FLUSH"@[0] == 'F');
    reveal_strlit("FASTIO_RELEASE_FOR_MOD_WRITE");
    assert("FASTIO_RELEASE_FOR_MOD_WRITE"@.len() == 28);
    assert("FASTIO_RELEASE_FOR_MOD_WRITE"@[0] == 'F');
    reveal_strlit("FASTIO_ACQUIRE_FOR_MOD_WRITE");
    assert("FASTIO_ACQUIRE_FOR_MOD_WRITE"@.len() == 28);
    assert("FASTIO_ACQUIRE_FOR_MOD_WRITE"@[0] == 'F');
    reveal_strlit("FASTIO_RELEASE_FOR_SECTION_SYNCHRONIZATION");
    assert("FASTIO_RELEASE_FOR_SECTION_SYNCHRONIZATION"@.len() == 42);
    reveal_strlit("CreateFileMapping");
    assert("CreateFileMapping"@.len() == 17);
    reveal_strlit("IRP_MJ_CLOSE");
    assert("IRP_MJ_CLOSE"@.len() == 12);
    reveal_strlit("ReadFile");
    assert("ReadFile"@.len() == 8);
    reveal_strlit("QueryInformationFile");
    assert("QueryInformationFile"@.len() == 20);
    reveal_strlit("QueryAllInformationFile");
    assert("QueryAllInformationFile"@.len() == 23);
    assert("QueryAllInformationFile"@[0] == 'Q');
    reveal_strlit("QueryAttributeTagFile");
    assert("QueryAttributeTagFile"@.len() == 21);
    reveal_strlit("QueryBasicInformationFile");
    assert("QueryBasicInformationFile"@.len() == 25);
    assert("QueryBasicInformationFile"@[7] == 's');
    reveal_strlit("QueryCompressionInformationFile");
    assert("QueryCompressionInformationFile"@.len() == 31);
    assert("QueryCompressionInformationFile"@[0] == 'Q');
    reveal_strlit("QueryEaInformationFile");
    assert("QueryEaInformationFile"@.len() == 22);
    assert("QueryEaInformationFile"@[0] == 'Q');
    reveal_strlit("QueryFileInternalInformationFile");
    assert("QueryFileInternalInformationFile"@.len() == 32);
    reveal_strlit("QueryMoveClusterInformationFile");
    assert("QueryMoveClusterInformationFile"@.len() == 31);
    assert("QueryMoveClusterInformationFile"@[0] == 'Q');
    reveal_strlit("QueryNetworkOpenInformationFile");
    assert("QueryNetworkOpenInformationFile"@.len() == 31);
    assert("QueryNetworkOpenInformationFile"@[0] == 'Q');
    reveal_strlit("QueryPositionInformationFile");
    assert("QueryPositionInformationFile"@.len() == 28);
    assert("QueryPositionInformationFile"@[0] == 'Q');
    reveal_strlit("QueryStandardInformationFile");
    assert("QueryStandardInformationFile"@.len() == 28);
    assert("QueryStandardInformationFile"@[0] == 'Q');
    reveal_strlit("QueryStreamInformationFile");
    assert("QueryStreamInformationFile"@.len() == 26);
    assert("QueryStreamInformationFile"@[0] == 'Q');
    reveal_strlit("QueryNameInformationFile");
    assert("QueryNameInformationFile"@.len() == 24);
    assert("QueryNameInformationFile"@[0] == 'Q');
    assert("QueryNameInformationFile"@[7] == 'm');
    reveal_strlit("QueryShortNameInformationFile");
    assert("QueryShortNameInformationFile"@.len() == 29);
    assert("QueryShortNameInformationFile"@[0] == 'Q');
    reveal_strlit("QueryNormalizedNameInformationFile");
    assert("QueryNormalizedNameInformationFile"@.len() == 34);
    reveal_strlit("QueryNetworkPhysicalNameInformationFile");
    assert("QueryNetworkPhysicalNameInformationFile"@.len() == 39);
    assert("QueryNetworkPhysicalNameInformationFile"@[0] == 'Q');
    reveal_strlit("QueryIdBothDirectory");
    assert("QueryIdBothDirectory"@.len() == 20);
    reveal_strlit("QueryValidDataLength");
    assert("QueryValidDataLength"@.len() == 20);
    reveal_strlit("QueryIoPiorityHint");
    assert("QueryIoPiorityHint"@.len() == 18);
    assert("QueryIoPiorityHint"@[0] == 'Q');
    reveal_strlit("QueryLinks");
    assert("QueryLinks"@.len() == 10);
    assert("QueryLinks"@[0] == 'Q');
    reveal_strlit("QueryId");
    assert("QueryId"@.len() == 7);
    reveal_strlit("QueryEndOfFile");
    assert("QueryEndOfFile"@.len() == 14);
    assert("QueryEndOfFile"@[0] == 'Q');
    reveal_strlit("QueryAttributeTag");
    assert("QueryAttributeTag"@.len() == 17);
    reveal_strlit("QueryIdGlobalTxDirectoryInformation");
    assert("QueryIdGlobalTxDirectoryInformation"@.len() == 35);
    reveal_strlit("QueryIsRemoteDeviceInformation");
    assert("QueryIsRemoteDeviceInformation"@.len() == 30);
    reveal_strlit("QueryAttributeCacheInformation,");
    assert("QueryAttributeCacheInformation,"@.len() == 31);
    assert("QueryAttributeCacheInformation,"@[0] == 'Q');
    reveal_strlit("QueryNumaNodeInformation");
    assert("QueryNumaNodeInformation"@.len() == 24);
    assert("QueryNumaNodeInformation"@[0] == 'Q');
    assert("QueryNumaNodeInformation"@[7] == 'm');
    reveal_strlit("QueryStandardLinkInformation");
    assert("QueryStandardLinkInformation"@.len() == 28);
    assert("QueryStandardLinkInformation"@[0] == 'Q');
    reveal_strlit("QueryRemoteProtocolInformation");
    assert("QueryRemoteProtocolInformation"@.len() == 30);
    reveal_strlit("QueryRenameInformationBypassAccessCheck");
    assert("QueryRenameInformationBypassAccessCheck"@.len() == 39);
    assert("QueryRenameInformationBypassAccessCheck"@[0] == 'Q');
    reveal_strlit("QueryLinkInformationBypassAccessCheck");
    assert("QueryLinkInformationBypassAccessCheck"@.len() == 37);
    reveal_strlit("QueryVolumeNameInformation");
    assert("QueryVolumeNameInformation"@.len() == 26);
    assert("QueryVolumeNameInformation"@[0] == 'Q');
    reveal_strlit("QueryIdInformation");
    assert("QueryIdInformation"@.len() == 18);
    assert("QueryIdInformation"@[0] == 'Q');
    reveal_strlit("QueryIdExtdDirectoryInformation");
    assert("QueryIdExtdDirectoryInformation"@.len() == 31);
    assert("QueryIdExtdDirectoryInformation"@[0] == 'Q');
    reveal_strlit("QueryHardLinkFullIdInformation");
    assert("QueryHardLinkFullIdInformation"@.len() == 30);
    reveal_strlit("QueryIdExtdBothDirectoryInformation");
    assert("QueryIdExtdBothDirectoryInformation"@.len() == 35);
    reveal_strlit("QueryDesiredStorageClassInformation");
    assert("QueryDesiredStorageClassInformation"@.len() == 35);
    reveal_strlit("QueryStatInformation");
    assert("QueryStatInformation"@.len() == 20);
    reveal_strlit("QueryMemoryPartitionInformation");
    assert("QueryMemoryPartitionInformation"@.len() == 31);
    assert("QueryMemoryPartitionInformation"@[0] == 'Q');
    reveal_strlit("QuerySatLxInformation");
    assert("QuerySatLxInformation"@.len() == 21);
    reveal_strlit("QueryCaseSensitiveInformation");
    assert("QueryCaseSensitiveInformation"@.len() == 29);
    assert("QueryCaseSensitiveInformation"@[0] == 'Q');
    reveal_strlit("QueryLinkInformationEx");
    assert("QueryLinkInformationEx"@.len() == 22);
    assert("QueryLinkInformationEx"@[0] == 'Q');
    reveal_strlit("QueryLinkInfomraitonBypassAccessCheck");
    assert("QueryLinkInfomraitonBypassAccessCheck"@.len() == 37);
    reveal_strlit("QueryStorageReservedIdInformation");
    assert("QueryStorageReservedIdInformation"@.len() == 33);
    assert("QueryStorageReservedIdInformation"@[0] == 'Q');
    reveal_strlit("QueryCaseSensitiveInformationForceAccessCheck");
    assert("QueryCaseSensitiveInformationForceAccessCheck"@.len() == 45);
    reveal_strlit("SetInformationFile");
    assert("SetInformationFile"@.len() == 18);
    assert("SetInformationFile"@[3] == 'I');
    reveal_strlit("QueryEAFile");
    assert("QueryEAFile"@.len() == 11);
    reveal_strlit("FlushBuffersFile");
    assert("FlushBuffersFile"@.len() == 16);
    reveal_strlit("QueryVolumeInformation");
    assert("QueryVolumeInformation"@.len() == 22);
    assert("QueryVolumeInformation"@[0] == 'Q');
    reveal_strlit("QueryInformationVolume");
    assert("QueryInformationVolume"@.len() == 22);
    assert("QueryInformationVolume"@[0] == 'Q');
    reveal_strlit("QueryLabelInformationVolume");
    assert("QueryLabelInformationVolume"@.len() == 27);
    assert("QueryLabelInformationVolume"@[0] == 'Q');
    reveal_strlit("QuerySizeInformationVolume");
    assert("QuerySizeInformationVolume"@.len() == 26);
    assert("QuerySizeInformationVolume"@[0] == 'Q');
    reveal_strlit("QueryDeviceInformationVolume");
    assert("QueryDeviceInformationVolume"@.len() == 28);
    assert("QueryDeviceInformationVolume"@[0] == 'Q');
    reveal_strlit("QueryAttributeInformationVolume");
    assert("QueryAttributeInformationVolume"@.len() == 31);
    assert("QueryAttributeInformationVolume"@[0] == 'Q');
    reveal_strlit("QueryControlInformationVolume");
    assert("QueryControlInformationVolume"@.len() == 29);
    assert("QueryControlInformationVolume"@[0] == 'Q');
    reveal_strlit("QueryFullSizeInformationVolume");
    assert("QueryFullSizeInformationVolume"@.len() == 30);
    reveal_strlit("QueryObjectIdInformationVolume");
    assert("QueryObjectIdInformationVolume"@.len() == 30);
    reveal_strlit("SetVolumeInformation");
    assert("SetVolumeInformation"@.len() == 20);
    reveal_strlit("DirectoryControl");
    assert("DirectoryControl"@.len() == 16);
    reveal_strlit("QueryDirectory");
    assert("QueryDirectory"@.len() == 14);
    assert("QueryDirectory"@[0] == 'Q');
    reveal_strlit("NotifyChangeDirectory");
    assert("NotifyChangeDirectory"@.len() == 21);
    reveal_strlit("FileSystemControl");
    assert("FileSystemControl"@.len() == 17);
    reveal_strlit("DeviceIoControl");
    assert("DeviceIoControl"@.len() == 15);
    reveal_strlit("InternalDeviceIoControl");
    assert("InternalDeviceIoControl"@.len() == 23);
    assert("InternalDeviceIoControl"@[0] == 'I');
    reveal_strlit("Shutdown");
    assert("Shutdown"@.len() == 8);
    reveal_strlit("LockUnlockFile");
    assert("LockUnlockFile"@.len() == 14);
    assert("LockUnlockFile"@[0] == 'L');
    reveal_strlit("LockFile");
    assert("LockFile"@.len() == 8);
    reveal_strlit("UnlockFileSingle");
    assert("UnlockFileSingle"@.len() == 16);
    reveal_strlit("UnlockFileAll");
    assert("UnlockFileAll"@.len() == 13);
    reveal_strlit("UnlockFileByKey");
    assert("UnlockFileByKey"@.len() == 15);
    reveal_strlit("CloseFile");
    assert("CloseFile"@.len() == 9);
    assert("CloseFile"@[0] == 'C');
    reveal_strlit("QuerySecurityFile");
    assert("QuerySecurityFile"@.len() == 17);
    reveal_strlit("SetSecurityFile");
    assert("SetSecurityFile"@.len() == 15);
    reveal_strlit("Power");
    assert("Power"@.len() == 5);
    reveal_strlit("SystemControl");
    assert("SystemControl"@.len() == 13);
    reveal_strlit("DeviceChange");
    assert("DeviceChange"@.len() == 12);
    reveal_strlit("QueryFileQuota");
    assert("QueryFileQuota"@.len() == 14);
    assert("QueryFileQuota"@[0] == 'Q');
    reveal_strlit("SetFileQuota");
    assert("SetFileQuota"@.len() == 12);
    reveal_strlit("PlugAndPlay");
    assert("PlugAndPlay"@.len() == 11);
    reveal_strlit("StartDevice");
    assert("StartDevice"@.len() == 11);
    reveal_strlit("QueryRemoveDevice");
    assert("QueryRemoveDevice"@.len() == 17);
    reveal_strlit("RemoveDevice");
    assert("RemoveDevice"@.len() == 12);
    reveal_strlit("CancelRemoveDevice");
    assert("CancelRemoveDevice"@.len() == 18);
    assert("CancelRemoveDevice"@[0] == 'C');
    reveal_strlit("StopDevice");
    assert("StopDevice"@.len() == 10);
    assert("StopDevice"@[0] == 'S');
    reveal_strlit("QueryStopDevice");
    assert("QueryStopDevice"@.len() == 15);
    reveal_strlit("CancelStopDevice");
    assert("CancelStopDevice"@.len() == 16);
    reveal_strlit("QueryDeviceRelations");
    assert("QueryDeviceRelations"@.len() == 20);
    reveal_strlit("QueryInterface");
    assert("QueryInterface"@.len() == 14);
    assert("QueryInterface"@[0] == 'Q');
    reveal_strlit("QueryCapabilities");
    assert("QueryCapabilities"@.len() == 17);
    reveal_strlit("QueryResources");
    assert("QueryResources"@.len() == 14);
    assert("QueryResources"@[0] == 'Q');
    reveal_strlit("QueryResourceRequirements");
    assert("QueryResourceRequirements"@.len() == 25);
    assert("QueryResourceRequirements"@[7] == 's');
    reveal_strlit("QueryDeviceText");
    assert("QueryDeviceText"@.len() == 15);
    reveal_strlit("FilterResourceRequirements");
    assert("FilterResourceRequirements"@.len() == 26);
    assert("FilterResourceRequirements"@[0] == 'F');
    reveal_strlit("ReadConfig");
    assert("ReadConfig"@.len() == 10);
    assert("ReadConfig"@[0] == 'R');
    reveal_strlit("WriteConfig");
    assert("WriteConfig"@.len() == 11);
    reveal_strlit("Eject");
    assert("Eject"@.len() == 5);
    reveal_strlit("SetLock");
    assert("SetLock"@.len() == 7);
    reveal_strlit("QueryPnpDeviceState");
    assert("QueryPnpDeviceState"@.len() == 19);
    reveal_strlit("QueryBusInformation");
    assert("QueryBusInformation"@.len() == 19);
    reveal_strlit("DeviceUsageNotification");
    assert("DeviceUsageNotification"@.len() == 23);
    assert("DeviceUsageNotification"@[0] == 'D');
    reveal_strlit("SurpriseRemoval");
    assert("SurpriseRemoval"@.len() == 15);
    reveal_strlit("QueryLegacyBusInformation");
    assert("QueryLegacyBusInformation"@.len() == 25);
    assert("QueryLegacyBusInformation"@[7] == 'g');
    reveal_strlit("IRP_MJ_MAXIMUM_FUNCTION");
    assert("IRP_MJ_MAXIMUM_FUNCTION"@.len() == 23);
    assert("IRP_MJ_MAXIMUM_FUNCTION"@[0] == 'I');
}

proof fn lemma_open_results_differ(result: Seq<char>)
    ensures
        result == "Created"@ ==> result != "Superseded"@ && result != "Overwritten"@,
        result == "Superseded"@ ==> result != "Overwritten"@,
{
    reveal_strlit("Created");
    assert("Created"@.len() == 7);
    reveal_strlit("Superseded");
    assert("Superseded"@.len() == 10);
    reveal_strlit("Overwritten");
    assert("Overwritten"@.len() == 11);
}

/// The operation is one that may touch files.
pub open spec fn is_file_operation(operation: Seq<char>) -> bool {
    ||| operation == "CreateFile"@
    ||| writes(operation)
    ||| makes(operation)
    ||| renames(operation)
    ||| leaves(operation)
}

/// The operation does `action` to its file.
pub open spec fn does_to_file(
    operation: Seq<char>,
    details: Map<Seq<char>, Seq<char>>,
    action: ItemAction,
) -> bool {
    let opening = operation == "CreateFile"@;
    match action {
        ItemAction::Create => makes(operation) || (opening && (says(
            details,
            "OpenResult"@,
            "Created"@,
        ) || says(details, "OpenResult"@, "Superseded"@))),
        ItemAction::Modify => writes(operation) || (opening && says(
            details,
            "OpenResult"@,
            "Overwritten"@,
        )),
        ItemAction::Delete => opening && says(details, "OpenResult"@, "Superseded"@),
        ItemAction::Rename => renames(operation),
    }
}

/// The operation is one of the registry.
pub open spec fn is_registry_operation(operation: Seq<char>) -> bool {
    ||| operation == "RegCreateKey"@
    ||| operation == "RegSetValue"@
    ||| operation == "RegDeleteKey"@
    ||| operation == "RegDeleteValue"@
    ||| operation == "RegRenameKey"@
    ||| operation == "RegSetKeySecurity"@
    ||| leaves_key(operation)
}

/// The operation does `action` to its registry key.
pub open spec fn does_to_key(
    operation: Seq<char>,
    details: Map<Seq<char>, Seq<char>>,
    action: ItemAction,
) -> bool {
    match action {
        ItemAction::Create => operation == "RegSetValue"@ || (operation == "RegCreateKey"@ && says(
            details,
            "Disposition"@,
            "REG_CREATED_NEW_KEY"@,
        )),
        ItemAction::Modify => operation == "RegSetValue"@ || operation == "RegSetKeySecurity"@,
        ItemAction::Delete => operation == "RegDeleteKey"@ || operation == "RegDeleteValue"@,
        ItemAction::Rename => operation == "RegRenameKey"@,
    }
}

/// The change `action` is noted in `meta`.
pub open spec fn notes(meta: ItemMetadata, action: ItemAction) -> bool {
    match action {
        ItemAction::Create => meta.created,
        ItemAction::Modify => meta.modified,
        ItemAction::Delete => meta.deleted,
        ItemAction::Rename => meta.renamed,
    }
}

pub(crate) proof fn lemma_file_effect(
    operation: Seq<char>,
    details: Map<Seq<char>, Seq<char>>,
    action: ItemAction,
)
    ensures
        file_effect(operation, details) is Some <==> is_file_operation(operation),
        file_effect(operation, details) matches Some(meta) ==> (notes(meta, action)
            <==> does_to_file(operation, details, action)),
{
    lemma_file_names_differ(operation);
    lemma_open_results_differ(details["OpenResult"@]);
    if leaves(operation) {
        lemma_passive_names_differ(operation);
    }
}

/// What an operation does to its file follows from its name alone, unless it opens
/// the file: then the outcome of the opening decides. No other detail plays a part.
pub proof fn file_operations_do_what_their_names_say(
    operation: &str,
    details: &Details,
    r: Option<ItemMetadata>,
)
    requires
        call_ensures(classify_file_operation, (operation, details), r),
    ensures
        writes(operation@) ==> r == Some(
            ItemMetadata { created: false, modified: true, deleted: false, renamed: false },
        ),
        makes(operation@) ==> r == Some(
            ItemMetadata { created: true, modified: false, deleted: false, renamed: false },
        ),
        renames(operation@) ==> r == Some(
            ItemMetadata { created: false, modified: false, deleted: false, renamed: true },
        ),
        leaves(operation@) ==> r == Some(
            ItemMetadata { created: false, modified: false, deleted: false, renamed: false },
        ),
        operation@ == "CreateFile"@ ==> r == Some(
            ItemMetadata {
                created: says(details@, "OpenResult"@, "Created"@) || says(
                    details@,
                    "OpenResult"@,
                    "Superseded"@,
                ),
                modified: says(details@, "OpenResult"@, "Overwritten"@),
                deleted: says(details@, "OpenResult"@, "Superseded"@),
                renamed: false,
            },
        ),
        r is None <==> !is_file_operation(operation@),
{
    lemma_file_names_differ(operation@);
    lemma_open_results_differ(details@["OpenResult"@]);
    if leaves(operation@) {
        lemma_passive_names_differ(operation@);
    }
}

/// Of two calls for the same operation the details decide only if it opens a file.
pub proof fn details_count_only_for_openings(
    operation: &str,
    details: &Details,
    others: &Details,
    r: Option<ItemMetadata>,
    s: Option<ItemMetadata>,
)
    requires
        call_ensures(classify_file_operation, (operation, details), r),
        call_ensures(classify_file_operation, (operation, others), s),
        operation@ != "CreateFile"@,
    ensures
        r == s,
{
    file_operations_do_what_their_names_say(operation, details, r);
    file_operations_do_what_their_names_say(operation, others, s);
}

proof fn lemma_key_names_differ(operation: Seq<char>)
    ensures
        operation == "RegCreateKey"@ ==> operation != "RegSetValue"@ && operation
            != "RegDeleteKey"@ && operation != "RegDeleteValue"@ && operation != "RegRenameKey"@
            && operation != "RegSetKeySecurity"@ && !leaves_key(operation),
        operation == "RegSetValue"@ ==> operation != "RegDeleteKey"@ && operation
            != "RegDeleteValue"@ && operation != "RegRenameKey"@ && operation
            != "RegSetKeySecurity"@ && !leaves_key(operation),
        operation == "RegDeleteKey"@ || operation == "RegDeleteValue"@ ==> operation
            != "RegRenameKey"@ && operation != "RegSetKeySecurity"@ && !leaves_key(operation),
        operation == "RegRenameKey"@ ==> operation != "RegSetKeySecurity"@ && !leaves_key(
            operation,
        ),
        operation == "RegSetKeySecurity"@ ==> !leaves_key(operation),
{
    reveal_strlit("RegCreateKey");
    assert("RegCreateKey"@.len() == 12);
    assert("RegCreateKey"@[3] == 'C');
    reveal_strlit("RegSetValue");
    assert("RegSetValue"@.len() == 11);
    assert("RegSetValue"@[3] == 'S');
    reveal_strlit("RegDeleteKey");
    assert("RegDeleteKey"@.len() == 12);
    assert("RegDeleteKey"@[3] == 'D');
    reveal_strlit("RegDeleteValue");
    assert("RegDeleteValue"@.len() == 14);
    reveal_strlit("RegRenameKey");
    assert("RegRenameKey"@.len() == 12);
    assert("RegRenameKey"@[3] == 'R');
    reveal_strlit("RegSetKeySecurity");
    assert("RegSetKeySecurity"@.len() == 17);
    reveal_strlit("RegOpenKey");
    assert("RegOpenKey"@.len() == 10);
    reveal_strlit("RegCloseKey");
    assert("RegCloseKey"@.len() == 11);
    assert("RegCloseKey"@[3] == 'C');
    reveal_strlit("RegQueryKey");
    assert("RegQueryKey"@.len() == 11);
    assert("RegQueryKey"@[3] == 'Q');
    reveal_strlit("RegQueryValue");
    assert("RegQueryValue"@.len() == 13);
    reveal_strlit("RegEnumValue");
    assert("RegEnumValue"@.len() == 12);
    assert("RegEnumValue"@[3] == 'E');
    reveal_strlit("RegEnumKey");
    assert("RegEnumKey"@.len() == 10);
    reveal_strlit("RegSetInfoKey");
    assert("RegSetInfoKey"@.len() == 13);
    reveal_strlit("RegFlushKey");
    assert("RegFlushKey"@.len() == 11);
    assert("RegFlushKey"@[3] == 'F');
    reveal_strlit("RegLoadKey");
    assert("RegLoadKey"@.len() == 10);
    reveal_strlit("RegUnloadKey");
    assert("RegUnloadKey"@.len() == 12);
    assert("RegUnloadKey"@[3] == 'U');
    reveal_strlit("RegQueryMultipleValueKey");
    assert("RegQueryMultipleValueKey"@.len() == 24);
    reveal_strlit("RegQueryKeySecurity");
    assert("RegQueryKeySecurity"@.len() == 19);
    reveal_strlit("RegOpenKey2");
    assert("RegOpenKey2"@.len() == 11);
    assert("RegOpenKey2"@[3] == 'O');
    reveal_strlit("RegRestorekey");
    assert("RegRestorekey"@.len() == 13);
    reveal_strlit("RegSaveKey");
    assert("RegSaveKey"@.len() == 10);
}

pub(crate) proof fn lemma_registry_effect(
    operation: Seq<char>,
    details: Map<Seq<char>, Seq<char>>,
    action: ItemAction,
)
    ensures
        registry_effect(operation, details) is Some <==> is_registry_operation(operation),
        registry_effect(operation, details) matches Some(meta) ==> (notes(meta, action)
            <==> does_to_key(operation, details, action)),
{
    lemma_key_names_differ(operation);
}

/// What an operation of the registry does to its key follows from its name alone,
/// unless it may create the key: then it does so exactly if it says that the key
/// is new.
pub proof fn registry_operations_do_what_their_names_say(
    operation: &str,
    details: &Details,
    r: Option<ItemMetadata>,
)
    requires
        call_ensures(classify_registry_operation, (operation, details), r),
    ensures
        operation@ == "RegCreateKey"@ ==> r == Some(
            ItemMetadata {
                created: says(details@, "Disposition"@, "REG_CREATED_NEW_KEY"@),
                modified: false,
                deleted: false,
                renamed: false,
            },
        ),
        operation@ == "RegSetValue"@ ==> r == Some(
            ItemMetadata { created: true, modified: true, deleted: false, renamed: false },
        ),
        operation@ == "RegDeleteKey"@ || operation@ == "RegDeleteValue"@ ==> r == Some(
            ItemMetadata { created: false, modified: false, deleted: true, renamed: false },
        ),
        operation@ == "RegRenameKey"@ ==> r == Some(
            ItemMetadata { created: false, modified: false, deleted: false, renamed: true },
        ),
        operation@ == "RegSetKeySecurity"@ ==> r == Some(
            ItemMetadata { created: false, modified: true, deleted: false, renamed: false },
        ),
        leaves_key(operation@) ==> r == Some(
            ItemMetadata { created: false, modified: false, deleted: false, renamed: false },
        ),
        r is None <==> !is_registry_operation(operation@),
{
    lemma_key_names_differ(operation@);
}

} // verus!
