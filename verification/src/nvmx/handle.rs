//! I/O handle for NVMe block device: what is asked of the driver for each
//! operation, and what becomes of its result.
use crate::block_device::{
    CoreError, GenericStatusCode, IoCompletionCallback, IoCompletionStatus, IoType,
    NvmeCommandStatus, EINVAL, ENODEV, ENOMEM,
};
use crate::nvmx::channel::{IoStats, NvmeControllerIoChannel, NvmeIoChannelInner};
use crate::nvmx::utils::{
    completion_status, nvme_command_status, nvme_cpl_succeeded, NvmeCompletion, SCT_GENERIC,
    SC_ABORTED_SQ_DELETION,
};
use vstd::prelude::*;

verus! {

/// Size of the memory pool for NVMe I/O structures.
pub const IOCTX_POOL_SIZE: u64 = 64 * 1024 - 1;

/// Maximum number of range sets that may be specified in the dataset management
/// command.
pub const SPDK_NVME_DATASET_MANAGEMENT_MAX_RANGES: u64 = 256;

/// Maximum number of blocks that may be specified in a single dataset management
/// range.
pub const SPDK_NVME_DATASET_MANAGEMENT_RANGE_MAX_BLOCKS: u64 = 0xFFFFFFFF;

/// Opcode of the NVMe admin command "identify".
pub const NVME_ADMIN_OPC_IDENTIFY: u16 = 0x06;

/// One element of a scatter-gather list: a buffer by address and length.
#[derive(Debug, Copy, Clone, PartialEq, Eq, Structural)]
pub struct IoVec {
    pub iov_base: u64,
    pub iov_len: u64,
}

/// One range of a dataset management command.
#[derive(Debug, Copy, Clone, PartialEq, Eq, Structural)]
pub struct DsmRange {
    pub attributes: u32,
    pub length: u32,
    pub starting_lba: u64,
}

/// What the handle reads of an NVMe namespace.
#[derive(Debug, Copy, Clone, PartialEq, Eq, Structural)]
pub struct NvmeNamespace {
    pub num_blocks: u64,
    pub block_len: u64,
    pub alignment: u64,
}

/// I/O context for NVMe controller I/O operation. It holds the user
/// context and the private state of the I/O operation, specific to the
/// controller.
#[derive(Debug, PartialEq, Eq)]
pub struct NvmeIoCtx {
    pub cb: IoCompletionCallback,
    pub iov: Vec<IoVec>,
    pub iovpos: u64,
    pub iov_offset: u64,
    pub op: IoType,
    pub num_blocks: u64,
    /// The channel that the I/O was dispatched to.
    pub channel: u64,
}

/// Memory pool for NVMe controller - specific I/O context, which is used
/// in every user BIO-based I/O operation. A context is known by the
/// number of its slot.
pub struct IoCtxPool {
    pub slots: Vec<Option<NvmeIoCtx>>,
}

/// I/O handle for NVMe block device.
#[derive(Debug, PartialEq, Eq)]
pub struct NvmeDeviceHandle {
    pub io_channel: NvmeControllerIoChannel,
    pub name: String,
    pub ns: NvmeNamespace,
    pub prchk_flags: u32,
    // Static values cached for performance.
    pub num_blocks: u64,
    pub block_len: u64,
}

/// A command for the driver to submit on the queue pair of the channel.
/// `ctx` names the I/O context that comes back with the completion.
#[derive(Debug, PartialEq, Eq)]
pub enum NvmeCommand {
    /// Read into one buffer.
    Read { ctx: u32, buffer: u64, lba: u64, lba_count: u32, io_flags: u32 },
    /// Read into the scatter-gather list of the context.
    Readv { ctx: u32, lba: u64, lba_count: u32, io_flags: u32 },
    /// Write from one buffer.
    Write { ctx: u32, buffer: u64, lba: u64, lba_count: u32, io_flags: u32 },
    /// Write from the scatter-gather list of the context.
    Writev { ctx: u32, lba: u64, lba_count: u32, io_flags: u32 },
    /// Deallocate the ranges.
    Deallocate { ctx: u32, ranges: Vec<DsmRange> },
}

/// What is handed to the caller's callback when an I/O has completed.
#[derive(Debug, Copy, Clone, PartialEq, Eq, Structural)]
pub struct Completion {
    pub cb: IoCompletionCallback,
    pub status: IoCompletionStatus,
}

/// The sum of the lengths of the first `upto` elements.
pub open spec fn total_len(iov: Seq<IoVec>, upto: int) -> int
    decreases upto,
{
    if upto <= 0 {
        0
    } else {
        total_len(iov, upto - 1) + iov[upto - 1].iov_len
    }
}

/// The number of contexts among the first `upto` slots that belong to I/O
/// of the channel.
pub open spec fn inflight(slots: Seq<Option<NvmeIoCtx>>, channel: u64, upto: int) -> nat
    decreases upto,
{
    if upto <= 0 {
        0
    } else {
        inflight(slots, channel, upto - 1) + if slots[upto - 1] matches Some(ctx) && ctx.channel
            == channel {
            1nat
        } else {
            0nat
        }
    }
}

/// The completions that end the I/O of a channel among the first `upto`
/// slots when its queue pair is deleted: one for each context of the
/// channel, in the order of the slots, with the status of a command that
/// was aborted.
pub open spec fn aborted(slots: Seq<Option<NvmeIoCtx>>, channel: u64, upto: int) -> Seq<Completion>
    decreases upto,
{
    if upto <= 0 {
        Seq::empty()
    } else if slots[upto - 1] matches Some(ctx) && ctx.channel == channel {
        aborted(slots, channel, upto - 1).push(
            Completion {
                cb: slots[upto - 1]->Some_0.cb,
                status: IoCompletionStatus::NvmeError(
                    NvmeCommandStatus::GenericCommandStatus(
                        GenericStatusCode::AbortedSubmissionQueueDeleted,
                    ),
                ),
            },
        )
    } else {
        aborted(slots, channel, upto - 1)
    }
}

/// There is one completion for each context of the channel.
pub proof fn lemma_aborted_count(slots: Seq<Option<NvmeIoCtx>>, channel: u64, upto: int)
    requires
        0 <= upto <= slots.len(),
    ensures
        aborted(slots, channel, upto).len() == inflight(slots, channel, upto),
        forall|i: int|
            0 <= i < aborted(slots, channel, upto).len() ==> (#[trigger] aborted(
                slots,
                channel,
                upto,
            )[i]).status is NvmeError,
    decreases upto,
{
    if upto > 0 {
        lemma_aborted_count(slots, channel, upto - 1);
        let all = aborted(slots, channel, upto);
        let front = aborted(slots, channel, upto - 1);
        assert forall|i: int| 0 <= i < all.len() implies (#[trigger] all[i]).status is NvmeError by {
            if i < front.len() {
                assert(all[i] == front[i]);
            }
        }
    }
}

/// The number of slots among the first `upto` that hold a context.
pub open spec fn occupied(slots: Seq<Option<NvmeIoCtx>>, upto: int) -> nat
    decreases upto,
{
    if upto <= 0 {
        0
    } else {
        occupied(slots, upto - 1) + if slots[upto - 1] is Some {
            1nat
        } else {
            0nat
        }
    }
}

/// The error of an I/O of kind `op` that could not be dispatched.
pub open spec fn dispatch_error(op: IoType, errno: i32, offset_blocks: u64, num_blocks: u64) -> CoreError {
    match op {
        IoType::Read => CoreError::ReadDispatch {
            source: errno,
            offset: offset_blocks,
            len: num_blocks,
        },
        IoType::Write => CoreError::WriteDispatch {
            source: errno,
            offset: offset_blocks,
            len: num_blocks,
        },
        IoType::Unmap => CoreError::UnmapDispatch {
            source: errno,
            offset: offset_blocks,
            len: num_blocks,
        },
        _ => CoreError::NotSupported { source: errno },
    }
}

/// The number of ranges that an unmap of `num_blocks` blocks takes: one
/// for each 2^32 - 1 blocks, and one for what is left.
pub open spec fn range_count(num_blocks: u64) -> int {
    (num_blocks + SPDK_NVME_DATASET_MANAGEMENT_RANGE_MAX_BLOCKS - 1)
        / SPDK_NVME_DATASET_MANAGEMENT_RANGE_MAX_BLOCKS as int
}

/// Whether `ranges` are the ranges of an unmap of `num_blocks` blocks from
/// `offset_blocks` on: as many as it takes, one behind the other from the
/// first block on, each but the last of the largest size, the last of
/// what is left.
pub open spec fn covers(ranges: Seq<DsmRange>, offset_blocks: u64, num_blocks: u64) -> bool {
    &&& ranges.len() == range_count(num_blocks)
    &&& forall|i: int|
        0 <= i < ranges.len() ==> {
            &&& (#[trigger] ranges[i]).attributes == 0
            &&& ranges[i].starting_lba == offset_blocks + i
                * SPDK_NVME_DATASET_MANAGEMENT_RANGE_MAX_BLOCKS
            &&& ranges[i].length == if i < ranges.len() - 1 {
                SPDK_NVME_DATASET_MANAGEMENT_RANGE_MAX_BLOCKS as int
            } else {
                num_blocks - i * SPDK_NVME_DATASET_MANAGEMENT_RANGE_MAX_BLOCKS
            }
        }
}

/// The error for an I/O of kind `op` that could not be dispatched;
/// `errno` says why.
pub fn io_type_to_err(op: IoType, errno: i32, offset_blocks: u64, num_blocks: u64) -> (error:
    CoreError)
    requires
        errno > 0,
    ensures
        error == dispatch_error(op, errno, offset_blocks, num_blocks),
{
    let source = errno;
    match op {
        IoType::Read => CoreError::ReadDispatch { source, offset: offset_blocks, len: num_blocks },
        IoType::Write => CoreError::WriteDispatch {
            source,
            offset: offset_blocks,
            len: num_blocks,
        },
        IoType::Unmap => CoreError::UnmapDispatch {
            source,
            offset: offset_blocks,
            len: num_blocks,
        },
        _ => CoreError::NotSupported { source },
    }
}

/// Whether the buffers of a vectored I/O are sane: there is a buffer,
/// and the first one has an address.
pub open spec fn sane(iov: Seq<IoVec>) -> bool {
    !(iov.len() == 0 || iov.len() > i32::MAX || iov[0].iov_base == 0)
}

/// Whether a count of blocks is more than the driver takes in a read or
/// a write, which is a count of 32 bits.
pub open spec fn too_many(num_blocks: u64) -> bool {
    num_blocks > u32::MAX
}

/// Make sure I/O structures look sane: there is at least one buffer, and
/// the first one has an address.
pub fn check_io_args(op: IoType, iov: &[IoVec], offset_blocks: u64, num_blocks: u64) -> (r: Result<
    (),
    CoreError,
>)
    ensures
        r == if !sane(iov@) {
            Err::<(), CoreError>(dispatch_error(op, EINVAL, offset_blocks, num_blocks))
        } else {
            Ok(())
        },
{
    if iov.len() == 0 || iov.len() > i32::MAX as usize {
        return Err(io_type_to_err(op, EINVAL, offset_blocks, num_blocks));
    }
    if iov[0].iov_base == 0 {
        return Err(io_type_to_err(op, EINVAL, offset_blocks, num_blocks));
    }
    Ok(())
}

/// Make sure the count of blocks of a read or a write is one that the
/// driver can take.
pub fn check_block_count(op: IoType, offset_blocks: u64, num_blocks: u64) -> (r: Result<
    (),
    CoreError,
>)
    ensures
        r == if too_many(num_blocks) {
            Err::<(), CoreError>(dispatch_error(op, EINVAL, offset_blocks, num_blocks))
        } else {
            Ok(())
        },
{
    if num_blocks > 0xffff_ffff {
        return Err(io_type_to_err(op, EINVAL, offset_blocks, num_blocks));
    }
    Ok(())
}

/// Check whether channel is suitable for serving I/O: a channel whose
/// controller is being reset has no queue pair.
pub fn check_channel_for_io(
    op: IoType,
    inner: &NvmeIoChannelInner,
    offset_blocks: u64,
    num_blocks: u64,
) -> (r: Result<(), CoreError>)
    ensures
        r == if inner.live() {
            Ok::<(), CoreError>(())
        } else {
            Err(dispatch_error(op, ENODEV, offset_blocks, num_blocks))
        },
{
    let mut errno: i32 = 0;
    // Check against concurrent controller reset, which results in valid
    // I/O channel but deactivated I/O pair.
    if inner.qpair.is_none() {
        errno = ENODEV;
    }
    if errno == 0 {
        Ok(())
    } else {
        Err(io_type_to_err(op, errno, offset_blocks, num_blocks))
    }
}

/// Handler for controller reset operation: turns success and failure
/// of the reset into the status that the caller's callback gets.
pub fn reset_callback(success: bool) -> (status: IoCompletionStatus)
    ensures
        status == if success {
            IoCompletionStatus::Success
        } else {
            IoCompletionStatus::NvmeError(
                NvmeCommandStatus::GenericCommandStatus(GenericStatusCode::InternalDeviceError),
            )
        },
{
    if success {
        IoCompletionStatus::Success
    } else {
        IoCompletionStatus::NvmeError(
            NvmeCommandStatus::GenericCommandStatus(GenericStatusCode::InternalDeviceError),
        )
    }
}

impl NvmeIoCtx {
    /// The cursor lies within the list, and the buffers are such that the
    /// driver can take them: no buffer is longer than 32 bits count, and
    /// none runs over the end of the address space.
    pub open spec fn wf(self) -> bool {
        &&& self.iovpos <= self.iov@.len()
        &&& self.iovpos < self.iov@.len() ==> self.iov_offset <= self.iov@[self.iovpos as int].iov_len
        &&& forall|i: int|
            0 <= i < self.iov@.len() ==> (#[trigger] self.iov@[i]).iov_len <= u32::MAX
                && self.iov@[i].iov_base + self.iov@[i].iov_len <= u64::MAX
    }

    /// The element that holds byte `offset` of the list: the first whose
    /// end lies behind it, searched from `from` on; the number of elements
    /// if there is none.
    pub open spec fn element_at(iov: Seq<IoVec>, offset: int, from: int) -> int
        decreases iov.len() - from,
    {
        if from >= iov.len() {
            iov.len() as int
        } else if offset < total_len(iov, from + 1) {
            from
        } else {
            Self::element_at(iov, offset, from + 1)
        }
    }

    /// Rewinds the cursor to byte `sgl_offset` of the list: to the element
    /// whose cumulative length exceeds the offset, and to the byte within
    /// it. An offset behind the end of the list leaves the cursor at the
    /// end, with what the offset exceeds the list by.
    pub fn nvme_queued_reset_sgl(&mut self, sgl_offset: u32)
        requires
            old(self).iov@.len() <= u64::MAX,
        ensures
            final(self).iovpos == Self::element_at(old(self).iov@, sgl_offset as int, 0),
            final(self).iov_offset == sgl_offset - total_len(
                old(self).iov@,
                final(self).iovpos as int,
            ),
            final(self).iovpos < old(self).iov@.len() ==> final(self).iov_offset < old(self).iov@[final(self).iovpos as int].iov_len,
            final(self).iov == old(self).iov,
            final(self).cb == old(self).cb,
            final(self).op == old(self).op,
            final(self).num_blocks == old(self).num_blocks,
            final(self).channel == old(self).channel,
    {
        self.iov_offset = sgl_offset as u64;
        self.iovpos = 0;
        let entries: usize = self.iov.len();
        let count: u64 = entries as u64;
        let mut found = false;
        while !found && self.iovpos < count
            invariant
                count == self.iov@.len(),
                count == entries,
                self.iovpos <= count,
                self.iov == old(self).iov,
                self.cb == old(self).cb,
                self.op == old(self).op,
                self.num_blocks == old(self).num_blocks,
                self.channel == old(self).channel,
                self.iov_offset == sgl_offset - total_len(self.iov@, self.iovpos as int),
                Self::element_at(self.iov@, sgl_offset as int, 0) == Self::element_at(
                    self.iov@,
                    sgl_offset as int,
                    self.iovpos as int,
                ),
                found ==> self.iovpos < count && self.iov_offset
                    < self.iov@[self.iovpos as int].iov_len,
            decreases count - self.iovpos + if found { 0int } else { 1int },
        {
            let len = self.iov[self.iovpos as usize].iov_len;
            if self.iov_offset < len {
                found = true;
            } else {
                self.iov_offset = self.iov_offset - len;
                self.iovpos = self.iovpos + 1;
            }
        }
    }

    /// The next element of the scatter-gather list for the driver: what is
    /// left of the element under the cursor, by address and length. The
    /// cursor moves to the start of the next element.
    pub fn nvme_queued_next_sge(&mut self) -> (sge: (u64, u32))
        requires
            old(self).wf(),
            old(self).iovpos < old(self).iov@.len(),
        ensures
            sge.0 == old(self).iov@[old(self).iovpos as int].iov_base + old(self).iov_offset,
            sge.1 == old(self).iov@[old(self).iovpos as int].iov_len - old(self).iov_offset,
            final(self).iovpos == old(self).iovpos + 1,
            final(self).iov_offset == 0,
            final(self).wf(),
            final(self).iov == old(self).iov,
            final(self).cb == old(self).cb,
            final(self).op == old(self).op,
            final(self).num_blocks == old(self).num_blocks,
            final(self).channel == old(self).channel,
    {
        let entries: usize = self.iov.len();
        assert(self.iovpos < entries);
        let iov = self.iov[self.iovpos as usize];
        assert(iov == self.iov@[self.iovpos as int]);
        assert(iov.iov_len <= u32::MAX && iov.iov_base + iov.iov_len <= u64::MAX);
        let mut a: u64 = iov.iov_base;
        let mut length: u32 = iov.iov_len as u32;
        if self.iov_offset > 0 {
            a = a + self.iov_offset;
            length = length - self.iov_offset as u32;
        }
        self.iov_offset = self.iov_offset + length as u64;
        if self.iov_offset == iov.iov_len {
            self.iovpos = self.iovpos + 1;
            self.iov_offset = 0;
        }
        (a, length)
    }
}

impl IoCtxPool {
    /// The number of contexts that the pool has room for.
    pub open spec fn capacity(self) -> nat {
        self.slots@.len()
    }

    /// The number of contexts that are in use.
    pub open spec fn in_use(self) -> nat {
        occupied(self.slots@, self.slots@.len() as int)
    }

    /// The number of contexts that belong to I/O of a channel.
    pub open spec fn inflight(self, channel: u64) -> nat {
        inflight(self.slots@, channel, self.slots@.len() as int)
    }

    /// A pool has room for at most as many contexts as 32 bits count.
    pub open spec fn wf(self) -> bool {
        self.slots@.len() <= u32::MAX
    }

    /// A pool with room for `capacity` contexts, none of them in use.
    pub fn create(capacity: u32) -> (pool: IoCtxPool)
        ensures
            pool.wf(),
            pool.capacity() == capacity,
            forall|i: int| 0 <= i < capacity ==> pool.slots@[i] is None,
    {
        let mut slots: Vec<Option<NvmeIoCtx>> = Vec::new();
        let mut i: u32 = 0;
        while i < capacity
            invariant
                i <= capacity,
                slots@.len() == i,
                forall|k: int| 0 <= k < i ==> slots@[k] is None,
            decreases capacity - i,
        {
            slots.push(None);
            i = i + 1;
        }
        IoCtxPool { slots }
    }

    /// Takes a free slot for a context. Gives the number of the slot, the
    /// first that is free; nothing where the pool is exhausted, and then
    /// the pool is as before.
    pub fn get(&mut self, ctx: NvmeIoCtx) -> (r: Option<u32>)
        requires
            old(self).wf(),
        ensures
            final(self).wf(),
            match r {
                Some(slot) => {
                    &&& slot < old(self).slots@.len()
                    &&& old(self).slots@[slot as int] is None
                    &&& forall|k: int| 0 <= k < slot ==> old(self).slots@[k] is Some
                    &&& final(self).slots@ == old(self).slots@.update(slot as int, Some(ctx))
                },
                None => {
                    &&& forall|k: int| 0 <= k < old(self).slots@.len() ==> old(self).slots@[k] is Some
                    &&& final(self).slots@ == old(self).slots@
                },
            },
    {
        let mut i: usize = 0;
        while i < self.slots.len()
            invariant
                i <= self.slots@.len(),
                self.slots@ == old(self).slots@,
                self.wf(),
                forall|k: int| 0 <= k < i ==> self.slots@[k] is Some,
            decreases self.slots@.len() - i,
        {
            if self.slots[i].is_none() {
                self.slots[i] = Some(ctx);
                return Some(i as u32);
            }
            i = i + 1;
        }
        None
    }

    /// Gives a context back to the pool: its slot is free again. Gives
    /// nothing for a slot that is free or that the pool does not have.
    pub fn put(&mut self, slot: u32) -> (r: Option<NvmeIoCtx>)
        requires
            old(self).wf(),
        ensures
            final(self).wf(),
            if slot < old(self).slots@.len() {
                &&& r == old(self).slots@[slot as int]
                &&& final(self).slots@ == old(self).slots@.update(slot as int, None)
            } else {
                r is None && final(self).slots@ == old(self).slots@
            },
    {
        if slot as usize >= self.slots.len() {
            return None;
        }
        self.slots.push(None);
        let ctx = self.slots.swap_remove(slot as usize);
        assert(self.slots@ =~= old(self).slots@.update(slot as int, None));
        ctx
    }
}


/// An NVMe admin command, as far as the handle sets it.
#[derive(Debug, Copy, Clone, PartialEq, Eq, Structural)]
pub struct NvmeAdminCommand {
    pub opc: u16,
    pub nsid: u32,
    pub cdw10: u32,
}

/// Where no context of a channel is among the slots, none is in flight.
pub proof fn lemma_none_inflight(slots: Seq<Option<NvmeIoCtx>>, channel: u64, upto: int)
    requires
        0 <= upto <= slots.len(),
        forall|k: int|
            0 <= k < upto ==> !((#[trigger] slots[k]) matches Some(ctx) && ctx.channel == channel),
    ensures
        inflight(slots, channel, upto) == 0,
    decreases upto,
{
    if upto > 0 {
        lemma_none_inflight(slots, channel, upto - 1);
    }
}

/// Whether an unmap of `num_blocks` blocks from `offset_blocks` on can be
/// answered: one that takes more than 256 ranges is refused, wherever it
/// starts; any other must end within the blocks that 64 bits count.
pub open spec fn unmap_bounded(offset_blocks: u64, num_blocks: u64) -> bool {
    range_count(num_blocks) <= SPDK_NVME_DATASET_MANAGEMENT_MAX_RANGES ==> offset_blocks
        + num_blocks <= u64::MAX
}

/// Whether an unmap of `num_blocks` blocks from `offset_blocks` on can be
/// answered.
pub fn unmap_is_bounded(offset_blocks: u64, num_blocks: u64) -> (r: bool)
    ensures
        r == unmap_bounded(offset_blocks, num_blocks),
{
    let max: u64 = SPDK_NVME_DATASET_MANAGEMENT_RANGE_MAX_BLOCKS;
    let num_ranges: u64 = num_blocks / max + if num_blocks % max == 0 {
        0
    } else {
        1
    };
    assert(num_ranges == range_count(num_blocks));
    num_ranges > SPDK_NVME_DATASET_MANAGEMENT_MAX_RANGES || num_blocks <= u64::MAX - offset_blocks
}

/// The ranges of a dataset management command that cover `num_blocks`
/// blocks from `offset_blocks` on: ranges of 2^32 - 1 blocks, and one
/// range for the blocks that are left. More than 256 ranges are refused.
pub fn dsm_ranges(offset_blocks: u64, num_blocks: u64) -> (r: Result<Vec<DsmRange>, CoreError>)
    requires
        unmap_bounded(offset_blocks, num_blocks),
    ensures
        match r {
            Ok(ranges) => range_count(num_blocks) <= SPDK_NVME_DATASET_MANAGEMENT_MAX_RANGES
                && covers(ranges@, offset_blocks, num_blocks),
            Err(error) => range_count(num_blocks) > SPDK_NVME_DATASET_MANAGEMENT_MAX_RANGES
                && error == (CoreError::UnmapDispatch {
                source: EINVAL,
                offset: offset_blocks,
                len: num_blocks,
            }),
        },
{
    let max: u64 = SPDK_NVME_DATASET_MANAGEMENT_RANGE_MAX_BLOCKS;
    let num_ranges: u64 = num_blocks / max + if num_blocks % max == 0 {
        0
    } else {
        1
    };
    assert(num_ranges == range_count(num_blocks));
    if num_ranges > SPDK_NVME_DATASET_MANAGEMENT_MAX_RANGES {
        return Err(
            CoreError::UnmapDispatch { source: EINVAL, offset: offset_blocks, len: num_blocks },
        );
    }
    let mut ranges: Vec<DsmRange> = Vec::new();
    let mut remaining: u64 = num_blocks;
    let mut offset: u64 = offset_blocks;
    // Fill max-size ranges until the remaining blocks fit into one range.
    while remaining > max
        invariant
            max == SPDK_NVME_DATASET_MANAGEMENT_RANGE_MAX_BLOCKS,
            num_ranges == range_count(num_blocks),
            offset_blocks + num_blocks <= u64::MAX,
            ranges@.len() + range_count(remaining) == range_count(num_blocks),
            num_ranges <= SPDK_NVME_DATASET_MANAGEMENT_MAX_RANGES,
            remaining == num_blocks - ranges@.len() * max,
            offset == offset_blocks + ranges@.len() * max,
            forall|i: int|
                0 <= i < ranges@.len() ==> (#[trigger] ranges@[i]).attributes == 0
                    && ranges@[i].starting_lba == offset_blocks + i * max && ranges@[i].length
                    == max,
        decreases remaining,
    {
        ranges.push(DsmRange { attributes: 0, length: max as u32, starting_lba: offset });
        offset = offset + max;
        remaining = remaining - max;
    }
    // Setup range that describes the remaining blocks.
    if remaining > 0 {
        ranges.push(DsmRange { attributes: 0, length: remaining as u32, starting_lba: offset });
    }
    Ok(ranges)
}

impl NvmeDeviceHandle {
    /// The handle for I/O to a namespace through the channel `io_channel`
    /// of the calling core; a null channel is refused.
    pub fn create(name: &str, io_channel: u64, ns: NvmeNamespace, prchk_flags: u32) -> (r: Result<
        NvmeDeviceHandle,
        CoreError,
    >)
        ensures
            match r {
                Ok(handle) => {
                    &&& io_channel != 0
                    &&& handle.io_channel == NvmeControllerIoChannel(io_channel)
                    &&& handle.name@ == name@
                    &&& handle.ns == ns
                    &&& handle.prchk_flags == prchk_flags
                    &&& handle.num_blocks == ns.num_blocks
                    &&& handle.block_len == ns.block_len
                },
                Err(error) => {
                    &&& io_channel == 0
                    &&& error matches CoreError::GetIoChannel { name: failed }
                    &&& failed@ == name@
                },
            },
    {
        // Obtain SPDK I/O channel for NVMe controller.
        let io_channel = match NvmeControllerIoChannel::from_null_checked(io_channel) {
            Some(io_channel) => io_channel,
            None => {
                return Err(CoreError::GetIoChannel { name: name.to_owned() });
            },
        };
        Ok(
            NvmeDeviceHandle {
                name: name.to_owned(),
                io_channel,
                num_blocks: ns.num_blocks,
                block_len: ns.block_len,
                prchk_flags,
                ns,
            },
        )
    }

    /// Turns an extent in bytes into blocks: whether offset and
    /// length are multiples of the block length, and what they are in
    /// blocks.
    pub fn bytes_to_blocks(&self, offset_bytes: u64, num_bytes: u64) -> (r: (bool, u64, u64))
        requires
            self.block_len > 0,
        ensures
            r.0 == (offset_bytes % self.block_len == 0 && num_bytes % self.block_len == 0),
            r.1 == offset_bytes / self.block_len,
            r.2 == num_bytes / self.block_len,
    {
        let offset_blocks = offset_bytes / self.block_len;
        let num_blocks = num_bytes / self.block_len;
        let aligned = offset_bytes % self.block_len == 0 && num_bytes % self.block_len == 0;
        (aligned, offset_blocks, num_blocks)
    }

    /// The I/O context of a request.
    fn context(op: IoType, iov: Vec<IoVec>, num_blocks: u64, cb: IoCompletionCallback, channel: u64) -> (ctx:
        NvmeIoCtx)
        ensures
            ctx.cb == cb,
            ctx.iov == iov,
            ctx.iovpos == 0,
            ctx.iov_offset == 0,
            ctx.op == op,
            ctx.num_blocks == num_blocks,
            ctx.channel == channel,
    {
        NvmeIoCtx { cb, iov, iovpos: 0, iov_offset: 0, op, num_blocks, channel }
    }

    /// What a vectored read or write is dispatched as.
    ///
    /// The buffers must be sane, else the error carries `EINVAL`. The
    /// channel must have its queue pair, else the error carries `ENODEV`:
    /// no I/O with sane buffers gets another answer from a channel whose
    /// queue pair is cleared. The count of blocks must fit 32 bits, else
    /// the error carries `EINVAL`. A context must be had from the pool,
    /// else the error carries `ENOMEM`. On an error the pool is as before.
    /// Else the context of the request is in the pool, and the command is
    /// the scalar one for a single buffer and the vectored one for more.
    pub open spec fn dispatched(
        self,
        op: IoType,
        live: bool,
        before: Seq<Option<NvmeIoCtx>>,
        after: Seq<Option<NvmeIoCtx>>,
        iov: Seq<IoVec>,
        offset_blocks: u64,
        num_blocks: u64,
        cb: IoCompletionCallback,
        r: Result<NvmeCommand, CoreError>,
    ) -> bool {
        let sane = sane(iov);
        let wide = too_many(num_blocks);
        let full = forall|k: int| 0 <= k < before.len() ==> before[k] is Some;
        match r {
            Err(error) => {
                &&& after == before
                &&& error == dispatch_error(
                    op,
                    if !sane {
                        EINVAL
                    } else if !live {
                        ENODEV
                    } else if wide {
                        EINVAL
                    } else {
                        ENOMEM
                    },
                    offset_blocks,
                    num_blocks,
                )
                &&& !sane || !live || wide || full
            },
            Ok(command) => {
                &&& sane
                &&& live
                &&& !wide
                &&& exists|slot: u32|
                    {
                        &&& slot < before.len()
                        &&& before[slot as int] is None
                        &&& forall|k: int| 0 <= k < slot ==> before[k] is Some
                        &&& #[trigger] after[slot as int] matches Some(ctx)
                        &&& ctx.cb == cb && ctx.iov@ == iov && ctx.iovpos == 0 && ctx.iov_offset == 0
                            && ctx.op == op && ctx.num_blocks == num_blocks && ctx.channel
                            == self.io_channel.0
                        &&& after == before.update(slot as int, after[slot as int])
                        &&& command == Self::command_for(
                            op,
                            slot,
                            iov,
                            offset_blocks,
                            num_blocks,
                            self.prchk_flags,
                        )
                    }
            },
        }
    }

    /// The command for a read or a write of `num_blocks` blocks at
    /// `offset_blocks`: with one buffer the scalar form, which takes the
    /// buffer itself; with more the vectored form, which walks the list of
    /// the context. The driver takes the count of blocks in 32 bits; a
    /// larger count is refused before a command is made.
    pub open spec fn command_for(
        op: IoType,
        ctx: u32,
        iov: Seq<IoVec>,
        offset_blocks: u64,
        num_blocks: u64,
        io_flags: u32,
    ) -> NvmeCommand {
        let lba_count = num_blocks as u32;
        if op == IoType::Read {
            if iov.len() == 1 {
                NvmeCommand::Read {
                    ctx,
                    buffer: iov[0].iov_base,
                    lba: offset_blocks,
                    lba_count,
                    io_flags,
                }
            } else {
                NvmeCommand::Readv { ctx, lba: offset_blocks, lba_count, io_flags }
            }
        } else {
            if iov.len() == 1 {
                NvmeCommand::Write {
                    ctx,
                    buffer: iov[0].iov_base,
                    lba: offset_blocks,
                    lba_count,
                    io_flags,
                }
            } else {
                NvmeCommand::Writev { ctx, lba: offset_blocks, lba_count, io_flags }
            }
        }
    }

    /// Prepares a vectored read or write: checks, context, command.
    fn dispatch(
        &self,
        op: IoType,
        inner: &NvmeIoChannelInner,
        pool: &mut IoCtxPool,
        iov: Vec<IoVec>,
        offset_blocks: u64,
        num_blocks: u64,
        cb: IoCompletionCallback,
    ) -> (r: Result<NvmeCommand, CoreError>)
        requires
            old(pool).wf(),
            op == IoType::Read || op == IoType::Write,
        ensures
            final(pool).wf(),
            self.dispatched(
                op,
                inner.live(),
                old(pool).slots@,
                final(pool).slots@,
                iov@,
                offset_blocks,
                num_blocks,
                cb,
                r,
            ),
    {
        match check_io_args(op, iov.as_slice(), offset_blocks, num_blocks) {
            Ok(()) => {},
            Err(error) => {
                return Err(error);
            },
        }
        // Make sure channel allows I/O.
        match check_channel_for_io(op, inner, offset_blocks, num_blocks) {
            Ok(()) => {},
            Err(error) => {
                return Err(error);
            },
        }
        match check_block_count(op, offset_blocks, num_blocks) {
            Ok(()) => {},
            Err(error) => {
                return Err(error);
            },
        }
        let single = iov.len() == 1;
        let buffer = iov[0].iov_base;
        let ghost list = iov@;
        let ctx = Self::context(op, iov, num_blocks, cb, self.io_channel.as_ptr());
        let slot = match pool.get(ctx) {
            Some(slot) => slot,
            None => {
                return Err(io_type_to_err(op, ENOMEM, offset_blocks, num_blocks));
            },
        };
        let lba_count: u32 = num_blocks as u32;
        let command = match op {
            IoType::Read => {
                if single {
                    NvmeCommand::Read {
                        ctx: slot,
                        buffer,
                        lba: offset_blocks,
                        lba_count,
                        io_flags: self.prchk_flags,
                    }
                } else {
                    NvmeCommand::Readv {
                        ctx: slot,
                        lba: offset_blocks,
                        lba_count,
                        io_flags: self.prchk_flags,
                    }
                }
            },
            _ => {
                if single {
                    NvmeCommand::Write {
                        ctx: slot,
                        buffer,
                        lba: offset_blocks,
                        lba_count,
                        io_flags: self.prchk_flags,
                    }
                } else {
                    NvmeCommand::Writev {
                        ctx: slot,
                        lba: offset_blocks,
                        lba_count,
                        io_flags: self.prchk_flags,
                    }
                }
            },
        };
        assert(pool.slots@[slot as int] is Some);
        Ok(command)
    }

    /// Dispatches a vectored read of `num_blocks` blocks at
    /// `offset_blocks`: gives the command for the driver to submit, or the
    /// reason why none is submitted.
    pub fn readv_blocks(
        &self,
        inner: &NvmeIoChannelInner,
        pool: &mut IoCtxPool,
        iov: Vec<IoVec>,
        offset_blocks: u64,
        num_blocks: u64,
        cb: IoCompletionCallback,
    ) -> (r: Result<NvmeCommand, CoreError>)
        requires
            old(pool).wf(),
        ensures
            final(pool).wf(),
            self.dispatched(
                IoType::Read,
                inner.live(),
                old(pool).slots@,
                final(pool).slots@,
                iov@,
                offset_blocks,
                num_blocks,
                cb,
                r,
            ),
    {
        self.dispatch(IoType::Read, inner, pool, iov, offset_blocks, num_blocks, cb)
    }

    /// Dispatches a vectored write of `num_blocks` blocks at
    /// `offset_blocks`: gives the command for the driver to submit, or the
    /// reason why none is submitted.
    pub fn writev_blocks(
        &self,
        inner: &NvmeIoChannelInner,
        pool: &mut IoCtxPool,
        iov: Vec<IoVec>,
        offset_blocks: u64,
        num_blocks: u64,
        cb: IoCompletionCallback,
    ) -> (r: Result<NvmeCommand, CoreError>)
        requires
            old(pool).wf(),
        ensures
            final(pool).wf(),
            self.dispatched(
                IoType::Write,
                inner.live(),
                old(pool).slots@,
                final(pool).slots@,
                iov@,
                offset_blocks,
                num_blocks,
                cb,
                r,
            ),
    {
        self.dispatch(IoType::Write, inner, pool, iov, offset_blocks, num_blocks, cb)
    }

    /// What an unmap is dispatched as.
    ///
    /// More than 256 ranges are refused with `EINVAL`, a channel without
    /// queue pair with `ENODEV`, an exhausted pool with `ENOMEM`; the pool
    /// is then as before. Else the context of the request is in the pool,
    /// and the command deallocates the ranges that cover the blocks.
    pub open spec fn unmapped(
        self,
        live: bool,
        before: Seq<Option<NvmeIoCtx>>,
        after: Seq<Option<NvmeIoCtx>>,
        offset_blocks: u64,
        num_blocks: u64,
        cb: IoCompletionCallback,
        r: Result<NvmeCommand, CoreError>,
    ) -> bool {
        match r {
            Err(error) => {
                &&& after == before
                &&& error == (CoreError::UnmapDispatch {
                    source: if range_count(num_blocks)
                        > SPDK_NVME_DATASET_MANAGEMENT_MAX_RANGES {
                        EINVAL
                    } else if !live {
                        ENODEV
                    } else {
                        ENOMEM
                    },
                    offset: offset_blocks,
                    len: num_blocks,
                })
                &&& range_count(num_blocks) > SPDK_NVME_DATASET_MANAGEMENT_MAX_RANGES
                    || !live || forall|k: int|
                    0 <= k < before.len() ==> before[k] is Some
            },
            Ok(command) => {
                &&& range_count(num_blocks) <= SPDK_NVME_DATASET_MANAGEMENT_MAX_RANGES
                &&& live
                &&& command matches NvmeCommand::Deallocate { ctx: slot, ranges }
                &&& covers(ranges@, offset_blocks, num_blocks)
                &&& slot < before.len()
                &&& before[slot as int] is None
                &&& forall|k: int| 0 <= k < slot ==> before[k] is Some
                &&& after[slot as int] matches Some(ctx)
                &&& ctx.cb == cb && ctx.iov@.len() == 0 && ctx.op == IoType::Unmap
                    && ctx.num_blocks == num_blocks && ctx.channel == self.io_channel.0
                &&& after == before.update(
                    slot as int,
                    after[slot as int],
                )
            },
        }
    }

    /// Dispatches an unmap of `num_blocks` blocks at `offset_blocks`:
    /// gives the command for the driver to submit, or the reason why none
    /// is submitted.
    ///
    /// More than 256 ranges are refused with `EINVAL`, a channel without
    /// queue pair with `ENODEV`, an exhausted pool with `ENOMEM`; the pool
    /// is then as before. Else the context of the request is in the pool,
    /// and the command deallocates the ranges that cover the blocks.
    pub fn unmap_blocks(
        &self,
        inner: &NvmeIoChannelInner,
        pool: &mut IoCtxPool,
        offset_blocks: u64,
        num_blocks: u64,
        cb: IoCompletionCallback,
    ) -> (r: Result<NvmeCommand, CoreError>)
        requires
            old(pool).wf(),
            unmap_bounded(offset_blocks, num_blocks),
        ensures
            final(pool).wf(),
            self.unmapped(
                inner.live(),
                old(pool).slots@,
                final(pool).slots@,
                offset_blocks,
                num_blocks,
                cb,
                r,
            ),
    {
        let ranges = match dsm_ranges(offset_blocks, num_blocks) {
            Ok(ranges) => ranges,
            Err(error) => {
                return Err(error);
            },
        };
        // Make sure channel allows I/O.
        match check_channel_for_io(IoType::Unmap, inner, offset_blocks, num_blocks) {
            Ok(()) => {},
            Err(error) => {
                return Err(error);
            },
        }
        let ctx = Self::context(
            IoType::Unmap,
            Vec::new(),
            num_blocks,
            cb,
            self.io_channel.as_ptr(),
        );
        let slot = match pool.get(ctx) {
            Some(slot) => slot,
            None => {
                return Err(io_type_to_err(IoType::Unmap, ENOMEM, offset_blocks, num_blocks));
            },
        };
        Ok(NvmeCommand::Deallocate { ctx: slot, ranges })
    }

    /// Write zeroes are done through unmap.
    pub fn write_zeroes(
        &self,
        inner: &NvmeIoChannelInner,
        pool: &mut IoCtxPool,
        offset_blocks: u64,
        num_blocks: u64,
        cb: IoCompletionCallback,
    ) -> (r: Result<NvmeCommand, CoreError>)
        requires
            old(pool).wf(),
            unmap_bounded(offset_blocks, num_blocks),
        ensures
            final(pool).wf(),
            self.unmapped(
                inner.live(),
                old(pool).slots@,
                final(pool).slots@,
                offset_blocks,
                num_blocks,
                cb,
                r,
            ),
    {
        self.unmap_blocks(inner, pool, offset_blocks, num_blocks, cb)
    }

    /// Takes in the result of the submission of a command. A negative
    /// result is a failure of the dispatch: the context goes back to the
    /// pool, and the error carries the errno. Else the I/O is in flight
    /// and counted on the channel.
    pub fn submitted(
        inner: &mut NvmeIoChannelInner,
        pool: &mut IoCtxPool,
        op: IoType,
        ctx: u32,
        rc: i32,
        offset_blocks: u64,
        num_blocks: u64,
    ) -> (r: Result<(), CoreError>)
        requires
            old(pool).wf(),
            rc > i32::MIN,
        ensures
            final(pool).wf(),
            final(inner).qpair == old(inner).qpair,
            final(inner).stats == old(inner).stats,
            if rc < 0 {
                &&& r == Err::<(), CoreError>(
                    dispatch_error(op, (-rc) as i32, offset_blocks, num_blocks),
                )
                &&& final(inner).num_pending_ios == old(inner).num_pending_ios
                &&& final(pool).slots@ == if ctx < old(pool).slots@.len() {
                    old(pool).slots@.update(ctx as int, None)
                } else {
                    old(pool).slots@
                }
            } else {
                &&& r == Ok::<(), CoreError>(())
                &&& final(inner).num_pending_ios == IoStats::sum(old(inner).num_pending_ios, 1)
                &&& final(pool).slots@ == old(pool).slots@
            },
    {
        if rc < 0 {
            pool.put(ctx);
            Err(io_type_to_err(op, -rc, offset_blocks, num_blocks))
        } else {
            inner.account_io();
            Ok(())
        }
    }
}

/// Notify the caller and deallocate Nvme IO context: what the completion
/// of the I/O with context `ctx` comes to.
///
/// The I/O is no longer in flight. If it succeeded, it is counted in the
/// statistics of the channel. The context goes back to the pool, and the
/// caller's callback gets the status of the command. Nothing happens for a
/// context that is not in the pool.
pub fn complete_nvme_command(
    inner: &mut NvmeIoChannelInner,
    pool: &mut IoCtxPool,
    ctx: u32,
    cpl: &NvmeCompletion,
) -> (r: Option<Completion>)
    requires
        old(pool).wf(),
    ensures
        final(pool).wf(),
        final(inner).qpair == old(inner).qpair,
        final(inner).poll_group == old(inner).poll_group,
        final(inner).poller == old(inner).poller,
        if ctx < old(pool).slots@.len() && old(pool).slots@[ctx as int] is Some {
            let io = old(pool).slots@[ctx as int]->Some_0;
            &&& r == Some(Completion { cb: io.cb, status: completion_status(*cpl) })
            &&& final(pool).slots@ == old(pool).slots@.update(ctx as int, None)
            &&& final(inner).num_pending_ios == if old(inner).num_pending_ios > 0 {
                old(inner).num_pending_ios - 1
            } else {
                0
            }
            &&& final(inner).stats == if completion_status(*cpl) == IoCompletionStatus::Success {
                old(inner).stats.accounted(io.op, 1, io.num_blocks)
            } else {
                old(inner).stats
            }
        } else {
            &&& r is None
            &&& final(pool).slots@ == old(pool).slots@
            &&& final(inner).num_pending_ios == old(inner).num_pending_ios
            &&& final(inner).stats == old(inner).stats
        },
{
    let io_ctx = match pool.put(ctx) {
        Some(io_ctx) => io_ctx,
        None => {
            assert(pool.slots@ =~= old(pool).slots@);
            return None;
        },
    };
    let op_succeeded = nvme_cpl_succeeded(cpl);
    // Update I/O statistics in case the operation succeeded.
    if op_succeeded {
        inner.stats.account_block_io(io_ctx.op, 1, io_ctx.num_blocks);
    }
    // Adjust the number of active I/O.
    inner.discard_io();
    // Invoke caller's callback and free I/O context.
    let status = if op_succeeded {
        IoCompletionStatus::Success
    } else {
        IoCompletionStatus::NvmeError(nvme_command_status(cpl))
    };
    Some(Completion { cb: io_ctx.cb, status })
}

/// Completes with an error every I/O of a channel that is in flight, as
/// on a reset of the controller, when the queue pair is deleted under the
/// commands.
///
/// Each I/O of the channel gets one completion, with the status of a
/// command that was aborted; afterwards the channel has no I/O in flight.
/// The I/O of other channels is not touched.
pub fn abort_inflight(inner: &mut NvmeIoChannelInner, pool: &mut IoCtxPool, channel: u64) -> (r:
    Vec<Completion>)
    requires
        old(pool).wf(),
    ensures
        final(pool).wf(),
        r@ == aborted(old(pool).slots@, channel, old(pool).slots@.len() as int),
        r@.len() == old(pool).inflight(channel),
        forall|i: int| 0 <= i < r@.len() ==> (#[trigger] r@[i]).status is NvmeError,
        final(pool).inflight(channel) == 0,
        final(pool).slots@.len() == old(pool).slots@.len(),
        forall|k: int|
            0 <= k < old(pool).slots@.len() ==> (#[trigger] final(pool).slots@[k]) == if old(pool).slots@[k] matches Some(ctx) && ctx.channel == channel {
                None
            } else {
                old(pool).slots@[k]
            },
        final(inner).qpair == old(inner).qpair,
        final(inner).num_pending_ios == if old(inner).num_pending_ios > r@.len() {
            old(inner).num_pending_ios - r@.len()
        } else {
            0
        },
        final(inner).stats == old(inner).stats,
{
    let cpl = NvmeCompletion { sct: SCT_GENERIC, sc: SC_ABORTED_SQ_DELETION };
    let mut completions: Vec<Completion> = Vec::new();
    let mut i: usize = 0;
    let count = pool.slots.len();
    while i < count
        invariant
            i <= count,
            count == pool.slots@.len(),
            count == old(pool).slots@.len(),
            pool.wf(),
            cpl == (NvmeCompletion { sct: SCT_GENERIC, sc: SC_ABORTED_SQ_DELETION }),
            completions@ == aborted(old(pool).slots@, channel, i as int),
            forall|k: int|
                0 <= k < i ==> (#[trigger] pool.slots@[k]) == if old(pool).slots@[k] matches Some(
                    ctx,
                ) && ctx.channel == channel {
                    None
                } else {
                    old(pool).slots@[k]
                },
            forall|k: int| i <= k < count ==> (#[trigger] pool.slots@[k]) == old(pool).slots@[k],
            inner.qpair == old(inner).qpair,
            inner.stats == old(inner).stats,
            completions@.len() <= i,
            inner.num_pending_ios == if old(inner).num_pending_ios > completions@.len() {
                old(inner).num_pending_ios - completions@.len()
            } else {
                0
            },
        decreases count - i,
    {
        let belongs = match &pool.slots[i] {
            Some(ctx) => ctx.channel == channel,
            None => false,
        };
        if belongs {
            match complete_nvme_command(inner, pool, i as u32, &cpl) {
                Some(completion) => {
                    completions.push(completion);
                },
                None => {},
            }
        }
        i = i + 1;
    }
    proof {
        assert forall|k: int| 0 <= k < count implies !((#[trigger] pool.slots@[k]) matches Some(
            ctx,
        ) && ctx.channel == channel) by {}
        lemma_none_inflight(pool.slots@, channel, count as int);
        lemma_aborted_count(old(pool).slots@, channel, count as int);
    }
    completions
}

impl NvmeDeviceHandle {
    /// What a read or write of a buffer of `len` bytes at the byte
    /// `offset` is dispatched as: the extent in blocks, if offset and
    /// length are multiples of the block length and the channel has its
    /// queue pair.
    pub fn check_at(&self, op: IoType, inner: &NvmeIoChannelInner, offset: u64, len: u64) -> (r:
        Result<(u64, u64), CoreError>)
        requires
            self.block_len > 0,
        ensures
            r == if !(offset % self.block_len == 0 && len % self.block_len == 0) {
                Err::<(u64, u64), CoreError>(CoreError::InvalidOffset { offset })
            } else if !inner.live() {
                Err(dispatch_error(op, ENODEV, offset / self.block_len, len / self.block_len))
            } else {
                Ok((offset / self.block_len, len / self.block_len))
            },
    {
        let (valid, offset_blocks, num_blocks) = self.bytes_to_blocks(offset, len);
        // Make sure offset/size matches device block size.
        if !valid {
            return Err(CoreError::InvalidOffset { offset });
        }
        // Make sure channel allows I/O.
        match check_channel_for_io(op, inner, offset_blocks, num_blocks) {
            Ok(()) => Ok((offset_blocks, num_blocks)),
            Err(error) => Err(error),
        }
    }

    /// Dispatches the read of a buffer of `len` bytes at the byte
    /// `offset`: gives the extent to read in blocks.
    pub fn read_at(&self, inner: &NvmeIoChannelInner, offset: u64, len: u64) -> (r: Result<
        (u64, u64),
        CoreError,
    >)
        requires
            self.block_len > 0,
        ensures
            r == if !(offset % self.block_len == 0 && len % self.block_len == 0) {
                Err::<(u64, u64), CoreError>(CoreError::InvalidOffset { offset })
            } else if !inner.live() {
                Err(
                    CoreError::ReadDispatch {
                        source: ENODEV,
                        offset: offset / self.block_len,
                        len: len / self.block_len,
                    },
                )
            } else {
                Ok((offset / self.block_len, len / self.block_len))
            },
    {
        self.check_at(IoType::Read, inner, offset, len)
    }

    /// Dispatches the write of a buffer of `len` bytes at the byte
    /// `offset`: gives the extent to write in blocks.
    pub fn write_at(&self, inner: &NvmeIoChannelInner, offset: u64, len: u64) -> (r: Result<
        (u64, u64),
        CoreError,
    >)
        requires
            self.block_len > 0,
        ensures
            r == if !(offset % self.block_len == 0 && len % self.block_len == 0) {
                Err::<(u64, u64), CoreError>(CoreError::InvalidOffset { offset })
            } else if !inner.live() {
                Err(
                    CoreError::WriteDispatch {
                        source: ENODEV,
                        offset: offset / self.block_len,
                        len: len / self.block_len,
                    },
                )
            } else {
                Ok((offset / self.block_len, len / self.block_len))
            },
    {
        self.check_at(IoType::Write, inner, offset, len)
    }

    /// Takes in the result of the submission of the command of `read_at`
    /// or `write_at`. A full queue (`-ENOMEM`) is no failure: the command
    /// is queued. Any other result but 0 fails the I/O. Else the I/O is in
    /// flight and counted on the channel.
    pub fn at_submitted(op: IoType, inner: &mut NvmeIoChannelInner, rc: i32, offset: u64, len: u64) -> (r:
        Result<(), CoreError>)
        requires
            op == IoType::Read || op == IoType::Write,
        ensures
            final(inner).qpair == old(inner).qpair,
            final(inner).stats == old(inner).stats,
            if rc != 0 && rc != -ENOMEM {
                &&& r == Err::<(), CoreError>(
                    if op == IoType::Read {
                        CoreError::ReadFailed { offset, len }
                    } else {
                        CoreError::WriteFailed { offset, len }
                    },
                )
                &&& final(inner).num_pending_ios == old(inner).num_pending_ios
            } else {
                &&& r == Ok::<(), CoreError>(())
                &&& final(inner).num_pending_ios == IoStats::sum(old(inner).num_pending_ios, 1)
            },
    {
        if rc != 0 && rc != -ENOMEM {
            return Err(
                match op {
                    IoType::Read => CoreError::ReadFailed { offset, len },
                    _ => CoreError::WriteFailed { offset, len },
                },
            );
        }
        inner.account_io();
        Ok(())
    }

    /// Takes in the completion of the command of `read_at` or `write_at`:
    /// the I/O is no longer in flight; if it succeeded it is counted in
    /// the statistics and gives the number of bytes, else it has failed.
    pub fn at_completed(
        op: IoType,
        inner: &mut NvmeIoChannelInner,
        success: bool,
        num_blocks: u64,
        offset: u64,
        len: u64,
    ) -> (r: Result<u64, CoreError>)
        requires
            op == IoType::Read || op == IoType::Write,
        ensures
            final(inner).qpair == old(inner).qpair,
            final(inner).num_pending_ios == if old(inner).num_pending_ios > 0 {
                old(inner).num_pending_ios - 1
            } else {
                0
            },
            if success {
                &&& r == Ok::<u64, CoreError>(len)
                &&& final(inner).stats == old(inner).stats.accounted(op, 1, num_blocks)
            } else {
                &&& r == Err::<u64, CoreError>(
                    if op == IoType::Read {
                        CoreError::ReadFailed { offset, len }
                    } else {
                        CoreError::WriteFailed { offset, len }
                    },
                )
                &&& final(inner).stats == old(inner).stats
            },
    {
        let ret = if success {
            inner.stats.account_block_io(op, 1, num_blocks);
            Ok(len)
        } else {
            Err(
                match op {
                    IoType::Read => CoreError::ReadFailed { offset, len },
                    _ => CoreError::WriteFailed { offset, len },
                },
            )
        };
        inner.discard_io();
        ret
    }

    /// Dispatches an admin command: the channel must have its queue pair.
    /// The I/O is then in flight and counted on the channel.
    pub fn nvme_admin(&self, inner: &mut NvmeIoChannelInner, cmd: &NvmeAdminCommand) -> (r: Result<
        NvmeAdminCommand,
        CoreError,
    >)
        ensures
            final(inner).qpair == old(inner).qpair,
            final(inner).stats == old(inner).stats,
            if old(inner).live() {
                &&& r == Ok::<NvmeAdminCommand, CoreError>(*cmd)
                &&& final(inner).num_pending_ios == IoStats::sum(old(inner).num_pending_ios, 1)
            } else {
                &&& r == Err::<NvmeAdminCommand, CoreError>(
                    CoreError::NvmeAdminDispatch { source: ENODEV, opcode: cmd.opc },
                )
                &&& final(inner).num_pending_ios == old(inner).num_pending_ios
            },
    {
        // Make sure channel allows I/O.
        if inner.qpair.is_none() {
            return Err(CoreError::NvmeAdminDispatch { source: ENODEV, opcode: cmd.opc });
        }
        inner.account_io();
        Ok(*cmd)
    }

    /// Takes in the completion of an admin command: the I/O is no longer
    /// in flight, and has failed unless the command succeeded.
    pub fn nvme_admin_completed(inner: &mut NvmeIoChannelInner, cmd: &NvmeAdminCommand, success: bool) -> (r:
        Result<(), CoreError>)
        ensures
            final(inner).qpair == old(inner).qpair,
            final(inner).stats == old(inner).stats,
            final(inner).num_pending_ios == if old(inner).num_pending_ios > 0 {
                old(inner).num_pending_ios - 1
            } else {
                0
            },
            r == if success {
                Ok::<(), CoreError>(())
            } else {
                Err(CoreError::NvmeAdminFailed { opcode: cmd.opc })
            },
    {
        let ret = if success {
            Ok(())
        } else {
            Err(CoreError::NvmeAdminFailed { opcode: cmd.opc })
        };
        inner.discard_io();
        ret
    }

    /// The admin command with the opcode given and nothing else.
    pub fn nvme_admin_custom(opcode: u8) -> (cmd: NvmeAdminCommand)
        ensures
            cmd == (NvmeAdminCommand { opc: opcode as u16, nsid: 0, cdw10: 0 }),
    {
        NvmeAdminCommand { opc: opcode as u16, nsid: 0, cdw10: 0 }
    }

    /// The admin command that identifies the controller, and the size of
    /// the buffer that takes its answer.
    pub fn nvme_identify_ctrlr() -> (r: (NvmeAdminCommand, u64))
        ensures
            r.0 == (NvmeAdminCommand { opc: NVME_ADMIN_OPC_IDENTIFY, nsid: 0xffffffff, cdw10: 1 }),
            r.1 == 4096,
    {
        (NvmeAdminCommand { opc: NVME_ADMIN_OPC_IDENTIFY, nsid: 0xffffffff, cdw10: 1 }, 4096)
    }

    /// Asks for a reset of the controller of the handle, if it is known.
    pub fn reset(&self, controller_known: bool) -> (r: Result<(), CoreError>)
        ensures
            match r {
                Ok(()) => controller_known,
                Err(error) => {
                    &&& !controller_known
                    &&& error matches CoreError::BdevNotFound { name }
                    &&& name@ == self.name@
                },
            },
    {
        if controller_known {
            Ok(())
        } else {
            Err(CoreError::BdevNotFound { name: self.name.clone() })
        }
    }
}

/// A read or write with sane buffers that is dispatched while the queue
/// pair of the channel is cleared fails with the error of its kind that
/// carries `ENODEV`, whatever it asks for, and leaves the pool of contexts
/// as it was.
pub proof fn lemma_cleared_channel_refuses(
    handle: NvmeDeviceHandle,
    op: IoType,
    before: Seq<Option<NvmeIoCtx>>,
    after: Seq<Option<NvmeIoCtx>>,
    iov: Seq<IoVec>,
    offset_blocks: u64,
    num_blocks: u64,
    cb: IoCompletionCallback,
    r: Result<NvmeCommand, CoreError>,
)
    requires
        handle.dispatched(op, false, before, after, iov, offset_blocks, num_blocks, cb, r),
        sane(iov),
    ensures
        r == Err::<NvmeCommand, CoreError>(dispatch_error(op, ENODEV, offset_blocks, num_blocks)),
        after == before,
{
}

/// An unmap of no more than 256 ranges that is dispatched while the queue
/// pair of the channel is cleared fails with `ENODEV`, and leaves the pool
/// of contexts as it was.
pub proof fn lemma_cleared_channel_refuses_unmap(
    handle: NvmeDeviceHandle,
    before: Seq<Option<NvmeIoCtx>>,
    after: Seq<Option<NvmeIoCtx>>,
    offset_blocks: u64,
    num_blocks: u64,
    cb: IoCompletionCallback,
    r: Result<NvmeCommand, CoreError>,
)
    requires
        handle.unmapped(false, before, after, offset_blocks, num_blocks, cb, r),
        range_count(num_blocks) <= SPDK_NVME_DATASET_MANAGEMENT_MAX_RANGES,
    ensures
        r == Err::<NvmeCommand, CoreError>(
            CoreError::UnmapDispatch { source: ENODEV, offset: offset_blocks, len: num_blocks },
        ),
        after == before,
{
}

/// A read or write with sane buffers, of a count of blocks that fits 32
/// bits, that is dispatched to a channel with a queue pair is refused only
/// if the pool of contexts is exhausted: a channel that has its queue pair
/// back after a reset serves I/O again.
pub proof fn lemma_live_channel_serves(
    handle: NvmeDeviceHandle,
    op: IoType,
    before: Seq<Option<NvmeIoCtx>>,
    after: Seq<Option<NvmeIoCtx>>,
    iov: Seq<IoVec>,
    offset_blocks: u64,
    num_blocks: u64,
    cb: IoCompletionCallback,
    r: Result<NvmeCommand, CoreError>,
    free: int,
)
    requires
        handle.dispatched(op, true, before, after, iov, offset_blocks, num_blocks, cb, r),
        sane(iov),
        !too_many(num_blocks),
        0 <= free < before.len(),
        before[free] is None,
    ensures
        r is Ok,
{
}

/// The number of blocks in the first `upto` ranges.
pub open spec fn blocks_in(ranges: Seq<DsmRange>, upto: int) -> int
    decreases upto,
{
    if upto <= 0 {
        0
    } else {
        blocks_in(ranges, upto - 1) + ranges[upto - 1].length
    }
}

/// All ranges of an unmap but the last hold the most blocks that a range
/// can hold.
pub proof fn lemma_full_ranges(
    ranges: Seq<DsmRange>,
    offset_blocks: u64,
    num_blocks: u64,
    upto: int,
)
    requires
        covers(ranges, offset_blocks, num_blocks),
        0 <= upto < ranges.len(),
    ensures
        blocks_in(ranges, upto) == upto * SPDK_NVME_DATASET_MANAGEMENT_RANGE_MAX_BLOCKS,
    decreases upto,
{
    if upto > 0 {
        lemma_full_ranges(ranges, offset_blocks, num_blocks, upto - 1);
        assert(ranges[upto - 1].length == SPDK_NVME_DATASET_MANAGEMENT_RANGE_MAX_BLOCKS);
        assert((upto - 1) * SPDK_NVME_DATASET_MANAGEMENT_RANGE_MAX_BLOCKS
            + SPDK_NVME_DATASET_MANAGEMENT_RANGE_MAX_BLOCKS == upto
            * SPDK_NVME_DATASET_MANAGEMENT_RANGE_MAX_BLOCKS) by (nonlinear_arith);
    }
}

/// The ranges of an unmap of `num_blocks` blocks are as many as it takes
/// ranges of 2^32 - 1 blocks to hold them, and no more. Each but the last
/// holds 2^32 - 1 blocks, the last at least one. The first starts at the
/// first block of the unmap, each other where the one before it ends, and
/// together they hold the blocks of the unmap.
pub proof fn lemma_unmap_ranges(ranges: Seq<DsmRange>, offset_blocks: u64, num_blocks: u64)
    requires
        covers(ranges, offset_blocks, num_blocks),
    ensures
        (ranges.len() - 1) * SPDK_NVME_DATASET_MANAGEMENT_RANGE_MAX_BLOCKS < num_blocks
            <= ranges.len() * SPDK_NVME_DATASET_MANAGEMENT_RANGE_MAX_BLOCKS || (num_blocks == 0
            && ranges.len() == 0),
        forall|i: int|
            0 <= i < ranges.len() - 1 ==> (#[trigger] ranges[i]).length
                == SPDK_NVME_DATASET_MANAGEMENT_RANGE_MAX_BLOCKS,
        ranges.len() > 0 ==> 1 <= ranges.last().length
            <= SPDK_NVME_DATASET_MANAGEMENT_RANGE_MAX_BLOCKS,
        ranges.len() > 0 ==> ranges[0].starting_lba == offset_blocks,
        forall|i: int|
            0 <= i < ranges.len() - 1 ==> ranges[i + 1].starting_lba == (
            #[trigger] ranges[i]).starting_lba + ranges[i].length,
        blocks_in(ranges, ranges.len() as int) == num_blocks,
{
    let most = SPDK_NVME_DATASET_MANAGEMENT_RANGE_MAX_BLOCKS as int;
    let n = ranges.len() as int;
    assert(n == (num_blocks + most - 1) / most);
    assert((n - 1) * most < num_blocks <= n * most || (num_blocks == 0 && n == 0))
        by (nonlinear_arith)
        requires
            n == (num_blocks + most - 1) / most,
            most == 0xffff_ffff,
            0 <= num_blocks,
    ;
    if n > 0 {
        lemma_full_ranges(ranges, offset_blocks, num_blocks, n - 1);
        assert(ranges[n - 1].length == num_blocks - (n - 1) * most);
        assert(ranges[0].starting_lba == offset_blocks + 0 * most);
    }
    assert forall|i: int| 0 <= i < n - 1 implies ranges[i + 1].starting_lba == (
    #[trigger] ranges[i]).starting_lba + ranges[i].length by {
        assert(ranges[i + 1].starting_lba == offset_blocks + (i + 1) * most);
        assert((i + 1) * most == i * most + most) by (nonlinear_arith);
    }
}

} // verus!
