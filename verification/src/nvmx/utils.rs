//! Reading NVMe completion queue entries.
use crate::block_device::{GenericStatusCode, IoCompletionStatus, NvmeCommandStatus};
use vstd::prelude::*;

verus! {

/// What the library reads of a completion queue entry: the status code
/// type and the status code.
#[derive(Debug, Copy, Clone, PartialEq, Eq, Structural)]
pub struct NvmeCompletion {
    pub sct: u16,
    pub sc: u16,
}

/// Status code type: generic command status.
pub const SCT_GENERIC: u16 = 0x0;

/// Status code type: command specific status.
pub const SCT_COMMAND_SPECIFIC: u16 = 0x1;

/// Status code type: media and data integrity errors.
pub const SCT_MEDIA_ERROR: u16 = 0x2;

/// Status code type: path related status.
pub const SCT_PATH: u16 = 0x3;

/// Status code type: vendor specific.
pub const SCT_VENDOR_SPECIFIC: u16 = 0x7;

/// Media error status code: end-to-end guard check failure.
pub const SC_GUARD: u16 = 0x82;

/// Media error status code: end-to-end application tag check failure.
pub const SC_APPLICATION_TAG: u16 = 0x83;

/// Media error status code: end-to-end reference tag check failure.
pub const SC_REFERENCE_TAG: u16 = 0x84;

/// Generic status code: success.
pub const SC_SUCCESS: u16 = 0x0;

/// Generic status code of a command that was aborted because its
/// submission queue was deleted, as on a reset.
pub const SC_ABORTED_SQ_DELETION: u16 = 0x8;

/// The generic status that a status code stands for.
pub open spec fn generic_status(sc: u16) -> GenericStatusCode {
    if sc == 0x00 {
        GenericStatusCode::Success
    } else if sc == 0x01 {
        GenericStatusCode::InvalidOpcode
    } else if sc == 0x02 {
        GenericStatusCode::InvalidFieldInCommand
    } else if sc == 0x03 {
        GenericStatusCode::CommandIdConflict
    } else if sc == 0x04 {
        GenericStatusCode::DataTransferError
    } else if sc == 0x05 {
        GenericStatusCode::AbortedPowerLoss
    } else if sc == 0x06 {
        GenericStatusCode::InternalDeviceError
    } else if sc == 0x07 {
        GenericStatusCode::AbortedByRequest
    } else if sc == 0x08 {
        GenericStatusCode::AbortedSubmissionQueueDeleted
    } else if sc == 0x09 {
        GenericStatusCode::AbortedFailedFused
    } else if sc == 0x0a {
        GenericStatusCode::AbortedMissingFused
    } else if sc == 0x0b {
        GenericStatusCode::InvalidNamespaceOrFormat
    } else if sc == 0x0c {
        GenericStatusCode::CommandSequenceError
    } else {
        GenericStatusCode::Other
    }
}

/// The command status that a completion queue entry stands for.
pub open spec fn command_status(cpl: NvmeCompletion) -> NvmeCommandStatus {
    if cpl.sct == SCT_GENERIC {
        NvmeCommandStatus::GenericCommandStatus(generic_status(cpl.sc))
    } else if cpl.sct == SCT_COMMAND_SPECIFIC {
        NvmeCommandStatus::CommandSpecificStatus
    } else if cpl.sct == SCT_MEDIA_ERROR {
        NvmeCommandStatus::MediaErrorStatus
    } else if cpl.sct == SCT_PATH {
        NvmeCommandStatus::PathStatus
    } else {
        NvmeCommandStatus::VendorSpecific
    }
}

/// How the I/O of a completion queue entry ended.
pub open spec fn completion_status(cpl: NvmeCompletion) -> IoCompletionStatus {
    if cpl.sct == SCT_GENERIC && cpl.sc == SC_SUCCESS {
        IoCompletionStatus::Success
    } else {
        IoCompletionStatus::NvmeError(command_status(cpl))
    }
}

/// Check if the Completion Queue Entry indicates abnormal termination of
/// request due to any of the following conditions:
///   - Any media specific errors that occur in the NVM or data integrity type
///     errors.
///   - The command was aborted due to an end-to-end guard check failure.
///   - The command was aborted due to an end-to-end application tag check
///     failure.
///   - The command was aborted due to an end-to-end reference tag check
///     failure.
pub fn nvme_cpl_is_pi_error(cpl: &NvmeCompletion) -> (r: bool)
    ensures
        r == (cpl.sct == SCT_MEDIA_ERROR || cpl.sc == SC_GUARD || cpl.sc == SC_APPLICATION_TAG
            || cpl.sc == SC_REFERENCE_TAG),
{
    cpl.sct == SCT_MEDIA_ERROR || cpl.sc == SC_GUARD || cpl.sc == SC_APPLICATION_TAG || cpl.sc
        == SC_REFERENCE_TAG
}

/// Check if NVMe controller command completed successfully.
pub fn nvme_cpl_succeeded(cpl: &NvmeCompletion) -> (r: bool)
    ensures
        r == (cpl.sct == SCT_GENERIC && cpl.sc == SC_SUCCESS),
        r == (completion_status(*cpl) == IoCompletionStatus::Success),
{
    cpl.sct == SCT_GENERIC && cpl.sc == SC_SUCCESS
}

/// The generic status named by a status code.
pub fn generic_status_code(sc: u16) -> (r: GenericStatusCode)
    ensures
        r == generic_status(sc),
{
    match sc {
        0x00 => GenericStatusCode::Success,
        0x01 => GenericStatusCode::InvalidOpcode,
        0x02 => GenericStatusCode::InvalidFieldInCommand,
        0x03 => GenericStatusCode::CommandIdConflict,
        0x04 => GenericStatusCode::DataTransferError,
        0x05 => GenericStatusCode::AbortedPowerLoss,
        0x06 => GenericStatusCode::InternalDeviceError,
        0x07 => GenericStatusCode::AbortedByRequest,
        0x08 => GenericStatusCode::AbortedSubmissionQueueDeleted,
        0x09 => GenericStatusCode::AbortedFailedFused,
        0x0a => GenericStatusCode::AbortedMissingFused,
        0x0b => GenericStatusCode::InvalidNamespaceOrFormat,
        0x0c => GenericStatusCode::CommandSequenceError,
        _ => GenericStatusCode::Other,
    }
}

/// The command status that a completion queue entry stands for.
pub fn nvme_command_status(cpl: &NvmeCompletion) -> (r: NvmeCommandStatus)
    ensures
        r == command_status(*cpl),
{
    if cpl.sct == SCT_GENERIC {
        NvmeCommandStatus::GenericCommandStatus(generic_status_code(cpl.sc))
    } else if cpl.sct == SCT_COMMAND_SPECIFIC {
        NvmeCommandStatus::CommandSpecificStatus
    } else if cpl.sct == SCT_MEDIA_ERROR {
        NvmeCommandStatus::MediaErrorStatus
    } else if cpl.sct == SCT_PATH {
        NvmeCommandStatus::PathStatus
    } else {
        NvmeCommandStatus::VendorSpecific
    }
}

} // verus!
