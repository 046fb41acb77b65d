//! What the block device layer shares: kinds of I/O, completion statuses
//! and errors.
use vstd::prelude::*;

verus! {

/// No such device.
pub const ENODEV: i32 = 19;

/// Out of memory: the pool of I/O contexts or the queue is exhausted.
pub const ENOMEM: i32 = 12;

/// Invalid argument.
pub const EINVAL: i32 = 22;

/// The kinds of I/O that a block device is asked for.
#[derive(Debug, Copy, Clone, PartialEq, Eq, Structural)]
pub enum IoType {
    Invalid,
    Read,
    Write,
    Unmap,
    Flush,
    Reset,
    NvmeAdmin,
    NvmeIo,
    NvmeIoMd,
    WriteZeros,
    ZeroCopy,
    ZoneInfo,
    ZoneManagement,
    ZoneAppend,
    Compare,
    CompareAndWrite,
    Abort,
}

/// Generic command status codes of NVMe.
#[derive(Debug, Copy, Clone, PartialEq, Eq, Structural)]
pub enum GenericStatusCode {
    Success,
    InvalidOpcode,
    InvalidFieldInCommand,
    CommandIdConflict,
    DataTransferError,
    AbortedPowerLoss,
    InternalDeviceError,
    AbortedByRequest,
    AbortedSubmissionQueueDeleted,
    AbortedFailedFused,
    AbortedMissingFused,
    InvalidNamespaceOrFormat,
    CommandSequenceError,
    /// A code that this library gives no name to.
    Other,
}

/// The status of an NVMe command that did not succeed, by its kind.
#[derive(Debug, Copy, Clone, PartialEq, Eq, Structural)]
pub enum NvmeCommandStatus {
    GenericCommandStatus(GenericStatusCode),
    CommandSpecificStatus,
    MediaErrorStatus,
    PathStatus,
    VendorSpecific,
}

/// How an I/O ended.
#[derive(Debug, Copy, Clone, PartialEq, Eq, Structural)]
pub enum IoCompletionStatus {
    Success,
    NvmeError(NvmeCommandStatus),
}

/// The caller's completion callback and its argument, as the tokens that
/// the caller knows them by.
#[derive(Debug, Copy, Clone, PartialEq, Eq, Structural)]
pub struct IoCompletionCallback {
    pub cb: u64,
    pub cb_arg: u64,
}

/// Errors of the block device layer. `source` is an errno.
#[derive(Debug, PartialEq, Eq)]
pub enum CoreError {
    /// Failed to acquire an I/O channel for the device `name`
    GetIoChannel { name: String },
    /// The device `name` is not known
    BdevNotFound { name: String },
    /// Offset or length is no multiple of the block length
    InvalidOffset { offset: u64 },
    /// Failed to dispatch read at `offset`
    ReadDispatch { source: i32, offset: u64, len: u64 },
    /// Failed to dispatch write at `offset`
    WriteDispatch { source: i32, offset: u64, len: u64 },
    /// Failed to dispatch unmap at `offset`
    UnmapDispatch { source: i32, offset: u64, len: u64 },
    /// Failed to dispatch NVMe Admin command `opcode`
    NvmeAdminDispatch { source: i32, opcode: u16 },
    /// Write failed at `offset`
    WriteFailed { offset: u64, len: u64 },
    /// Read failed at `offset`
    ReadFailed { offset: u64, len: u64 },
    /// NVMe Admin command `opcode` failed
    NvmeAdminFailed { opcode: u16 },
    /// The operation is not supported
    NotSupported { source: i32 },
}

} // verus!
