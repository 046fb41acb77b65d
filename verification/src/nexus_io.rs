//! I/O through the nexus: to which children it goes, when it is
//! complete, and what a failure on a child leads to.
use crate::block_device::IoType;
use crate::nexus_bdev::{open_count, position, Nexus};
use crate::nexus_bdev_children::{with_state, ErrorKind, NexusError};
use crate::nexus_child::{ChildState, NexusChild, Reason};
use crate::nexus_child_error_store::{ErrStoreOpts, IoErrorKind, NexusErrStore};
use vstd::prelude::*;

verus! {

/// An I/O that the nexus has handed to its children.
#[derive(Debug, Copy, Clone, PartialEq, Eq, Structural)]
pub struct NexusIo {
    pub op: IoType,
    pub offset: u64,
    pub num_blocks: u64,
    /// The number of children that have not answered yet.
    pub in_flight: u32,
    /// Whether a child has reported a failure.
    pub failed: bool,
}

/// How often an I/O is attempted through a handle.
#[derive(Debug, Copy, Clone, PartialEq, Eq, Structural)]
pub struct IoRetry {
    /// The number of attempts that are made at most; at least one is made.
    pub retries: u32,
    /// The number of attempts that have failed.
    pub failures: u32,
}

/// What to do after an attempt.
#[derive(Debug, Copy, Clone, PartialEq, Eq, Structural)]
pub enum RetryDecision {
    /// The I/O has succeeded.
    Succeeded,
    /// The I/O is attempted again.
    Retry,
    /// The I/O has failed for good.
    Failed,
}

/// The indices of the open children among the first `upto`, in order.
pub open spec fn open_indices(children: Seq<NexusChild>, upto: int) -> Seq<usize>
    decreases upto,
{
    if upto <= 0 {
        Seq::empty()
    } else if children[upto - 1].is_open() {
        open_indices(children, upto - 1).push((upto - 1) as usize)
    } else {
        open_indices(children, upto - 1)
    }
}

/// The index of the first open child at or behind `from`; the number of
/// children if there is none.
pub open spec fn next_open(children: Seq<NexusChild>, from: int) -> int
    decreases children.len() - from,
{
    if from >= children.len() {
        children.len() as int
    } else if children[from].is_open() {
        from
    } else {
        next_open(children, from + 1)
    }
}

/// The state of an I/O after the answers of some children came in.
pub open spec fn after(io: NexusIo, answers: Seq<bool>) -> NexusIo
    decreases answers.len(),
{
    if answers.len() == 0 {
        io
    } else {
        let before = after(io, answers.drop_last());
        NexusIo {
            in_flight: if before.in_flight > 0 {
                (before.in_flight - 1) as u32
            } else {
                0
            },
            failed: before.failed || !answers.last(),
            ..before
        }
    }
}

/// There are as many indices of open children as open children.
pub proof fn lemma_open_indices(children: Seq<NexusChild>, upto: int)
    requires
        0 <= upto <= children.len(),
        children.len() <= usize::MAX,
    ensures
        open_indices(children, upto).len() == open_count(children, upto),
        forall|k: int|
            0 <= k < open_indices(children, upto).len() ==> (#[trigger] open_indices(
                children,
                upto,
            )[k]) < upto && children[open_indices(children, upto)[k] as int].is_open(),
    decreases upto,
{
    if upto > 0 {
        lemma_open_indices(children, upto - 1);
        let indices = open_indices(children, upto);
        let front = open_indices(children, upto - 1);
        assert forall|k: int| 0 <= k < indices.len() implies (#[trigger] indices[k]) < upto
            && children[indices[k] as int].is_open() by {
            if k < front.len() {
                assert(indices[k] == front[k]);
            }
        }
    }
}

/// An I/O that went to `n` children is complete when `n` answers are in,
/// and no sooner; it has succeeded exactly if every child has.
pub proof fn lemma_all_must_succeed(io: NexusIo, answers: Seq<bool>)
    requires
        !io.failed,
        answers.len() <= io.in_flight,
    ensures
        after(io, answers).in_flight == io.in_flight - answers.len(),
        after(io, answers).failed == exists|i: int| 0 <= i < answers.len() && !answers[i],
        after(io, answers).op == io.op,
        after(io, answers).offset == io.offset,
        after(io, answers).num_blocks == io.num_blocks,
    decreases answers.len(),
{
    if answers.len() > 0 {
        let front = answers.drop_last();
        lemma_all_must_succeed(io, front);
        if exists|i: int| 0 <= i < front.len() && !front[i] {
            let i = choose|i: int| 0 <= i < front.len() && !front[i];
            assert(!answers[i]);
        }
        if !answers.last() {
            assert(!answers[answers.len() - 1]);
        }
        if exists|i: int| 0 <= i < answers.len() && !answers[i] {
            let i = choose|i: int| 0 <= i < answers.len() && !answers[i];
            if i < front.len() {
                assert(!front[i]);
            }
        }
    }
}

impl NexusIo {
    /// An I/O that goes to `targets` children.
    pub fn new(op: IoType, offset: u64, num_blocks: u64, targets: u32) -> (io: NexusIo)
        ensures
            io == (NexusIo { op, offset, num_blocks, in_flight: targets, failed: false }),
    {
        NexusIo { op, offset, num_blocks, in_flight: targets, failed: false }
    }

    /// Takes in the answer of a child. While answers are missing the I/O
    /// is pending; with the last answer it is complete, and has succeeded
    /// exactly if no child has reported a failure.
    pub fn child_completed(&mut self, success: bool) -> (done: Option<bool>)
        requires
            old(self).in_flight > 0,
        ensures
            *final(self) == (NexusIo {
                in_flight: (old(self).in_flight - 1) as u32,
                failed: old(self).failed || !success,
                ..*old(self)
            }),
            *final(self) == after(*old(self), seq![success]),
            done == if final(self).in_flight == 0 {
                Some(!final(self).failed)
            } else {
                None
            },
    {
        proof {
            assert(seq![success].drop_last() =~= Seq::<bool>::empty());
            assert(after(*self, Seq::<bool>::empty()) == *self);
        }
        self.in_flight = self.in_flight - 1;
        if !success {
            self.failed = true;
        }
        if self.in_flight == 0 {
            Some(!self.failed)
        } else {
            None
        }
    }
}

impl IoRetry {
    /// The number of attempts that are made at most.
    pub open spec fn attempts(self) -> int {
        if self.retries == 0 {
            1
        } else {
            self.retries as int
        }
    }

    /// A handle that attempts each I/O once.
    pub fn new() -> (retry: IoRetry)
        ensures
            retry == (IoRetry { retries: 1, failures: 0 }),
    {
        IoRetry { retries: 1, failures: 0 }
    }

    /// Sets the number of attempts for the I/O to come.
    pub fn set_retries(&mut self, retries: u32)
        ensures
            *final(self) == (IoRetry { retries, failures: 0 }),
    {
        self.retries = retries;
        self.failures = 0;
    }

    /// Takes in how an attempt ended. A success ends the I/O. A failure
    /// leads to another attempt while fewer attempts have failed than are
    /// made at most; with the last of them the I/O has failed.
    pub fn attempted(&mut self, success: bool) -> (decision: RetryDecision)
        requires
            old(self).failures < old(self).attempts(),
        ensures
            final(self).retries == old(self).retries,
            success ==> decision == RetryDecision::Succeeded && final(self).failures == 0,
            !success ==> final(self).failures == if old(self).failures + 1 < old(self).attempts() {
                old(self).failures + 1
            } else {
                0
            },
            !success ==> decision == if old(self).failures + 1 < old(self).attempts() {
                RetryDecision::Retry
            } else {
                RetryDecision::Failed
            },
    {
        if success {
            self.failures = 0;
            return RetryDecision::Succeeded;
        }
        let attempts = if self.retries == 0 {
            1
        } else {
            self.retries
        };
        if self.failures + 1 < attempts {
            self.failures = self.failures + 1;
            RetryDecision::Retry
        } else {
            self.failures = 0;
            RetryDecision::Failed
        }
    }
}

impl Nexus {
    /// The children that a write goes to: all that are open, and no
    /// other.
    pub fn write_targets(&self) -> (targets: Vec<usize>)
        ensures
            targets@ == open_indices(self.children@, self.children@.len() as int),
            targets@.len() == self.open_children(),
            forall|k: int|
                0 <= k < targets@.len() ==> (#[trigger] targets@[k]) < self.children@.len()
                    && self.children@[targets@[k] as int].is_open(),
    {
        let mut targets: Vec<usize> = Vec::new();
        let mut i: usize = 0;
        while i < self.children.len()
            invariant
                i <= self.children@.len(),
                targets@ == open_indices(self.children@, i as int),
            decreases self.children@.len() - i,
        {
            if let ChildState::Open = self.children[i].state {
                targets.push(i);
            }
            i = i + 1;
        }
        proof {
            assert(self.children@.len() == self.children.len());
            lemma_open_indices(self.children@, self.children@.len() as int);
        }
        targets
    }

    /// The child that a read goes to: the first open child at or behind
    /// `from`. A read that failed on a child is tried once more, on the
    /// next open child behind it.
    pub fn read_target(&self, from: usize) -> (target: Option<usize>)
        ensures
            match target {
                Some(at) => at == next_open(self.children@, from as int) && from <= at
                    < self.children@.len() && self.children@[at as int].is_open(),
                None => next_open(self.children@, from as int) >= self.children@.len(),
            },
    {
        let mut i: usize = from;
        while i < self.children.len()
            invariant
                from <= i,
                next_open(self.children@, from as int) == next_open(self.children@, i as int),
            decreases self.children@.len() - i,
        {
            if let ChildState::Open = self.children[i].state {
                return Some(i);
            }
            i = i + 1;
        }
        None
    }

    /// Takes in that an I/O has failed on a child: the failure is
    /// recorded in the error store of the child, and the policies are
    /// applied to the store. If they call for it, the child is faulted,
    /// unless it is the last child or the last healthy child of the nexus.
    ///
    /// Gives the reason for which the child was faulted, if it was; the
    /// I/O channels of the nexus are then to be reconfigured.
    pub fn error_record_add(
        &mut self,
        opts: &ErrStoreOpts,
        child: &str,
        io_op: IoType,
        io_error: IoErrorKind,
        io_offset: u64,
        io_num_blocks: u64,
        now: u64,
    ) -> (r: Result<Option<Reason>, NexusError>)
        requires
            old(self).wf(),
        ensures
            final(self).wf(),
            final(self).children@.len() == old(self).children@.len(),
            old(self).open_children() >= 1 ==> final(self).open_children() >= 1,
            match r {
                Err(error) => {
                    &&& opts.enable_err_store
                    &&& !old(self).has_child(child@)
                    &&& error.is(ErrorKind::ChildNotFound, old(self).name@, child@)
                    &&& *final(self) == *old(self)
                },
                Ok(faulted) => {
                    &&& !opts.enable_err_store ==> faulted is None && *final(self) == *old(self)
                    &&& opts.enable_err_store ==> {
                        let at = position(old(self).children@, child@, 0);
                        let recorded = final(self).children@[at].err_store;
                        &&& old(self).has_child(child@)
                        &&& Self::recorded(
                            old(self).children@[at].err_store,
                            recorded,
                            opts.err_store_size,
                            crate::nexus_child_error_store::NexusChildErrorRecord {
                                io_offset,
                                io_num_blocks,
                                timestamp: now,
                                io_error,
                                io_op,
                            },
                        )
                        &&& forall|k: int|
                            0 <= k < old(self).children@.len() && k != at ==> (
                            #[trigger] final(self).children@[k]) == old(self).children@[k]
                        &&& final(self).children@[at].state == match faulted {
                            Some(reason) => ChildState::Faulted(reason),
                            None => old(self).children@[at].state,
                        }
                        &&& faulted matches Some(reason) ==> opts.verdict(recorded, now) == Some(
                            reason,
                        ) && old(self).child_count >= 2 && !old(self).last_healthy(child@) && !(old(self).children@[at].state is Faulted)
                        &&& faulted is None ==> opts.verdict(recorded, now) is None || old(self).child_count < 2 || old(self).last_healthy(child@) || old(self).children@[at].state is Faulted
                    }
                },
            },
    {
        if !opts.enable_err_store {
            return Ok(None);
        }
        let at = match self.find_child(child) {
            Some(at) => at,
            None => {
                return Err(
                    NexusError::ChildNotFound { name: self.name.clone(), child: child.to_owned() },
                );
            },
        };
        let ghost before = self.children@;
        let mut taken = self.children.remove(at);
        if taken.err_store.capacity == 0 {
            taken.err_store = NexusErrStore::new(opts.err_store_size);
        }
        taken.err_store.add_record(io_op, io_error, io_offset, io_num_blocks, now);
        let verdict = opts.assess(&taken.err_store, now);
        proof {
            crate::nexus_bdev_children::lemma_open_count_update(
                before,
                at as int,
                taken,
                before.len() as int,
            );
            crate::nexus_bdev_children::lemma_position(before, child@, 0);
        }
        self.children.insert(at, taken);
        assert(self.children@ =~= before.update(at as int, taken));
        proof {
            crate::nexus_bdev_children::lemma_position(self.children@, child@, 0);
            assert(self.children@[at as int].name@ == child@);
            assert forall|k: int| 0 <= k < at implies (#[trigger] self.children@[k]).name@
                != child@ by {
                assert(self.children@[k] == before[k]);
            }
        }
        match verdict {
            None => Ok(None),
            Some(reason) => {
                let ghost recorded = self.children@;
                match self.fault_child(child, reason) {
                    Ok(true) => {
                        assert(self.children@ =~= with_state(
                            recorded,
                            at as int,
                            ChildState::Faulted(reason),
                        ));
                        Ok(Some(reason))
                    },
                    Ok(false) => Ok(None),
                    Err(_) => Ok(None),
                }
            },
        }
    }

    /// Whether `after` is the store `before` with `record` added; a store
    /// without room is first given room for `size` records.
    pub open spec fn recorded(
        before: NexusErrStore,
        after: NexusErrStore,
        size: usize,
        record: crate::nexus_child_error_store::NexusChildErrorRecord,
    ) -> bool {
        if before.capacity == 0 {
            after.capacity == size && after.records@ =~= (if size == 0 {
                Seq::empty()
            } else {
                seq![record]
            })
        } else {
            after.capacity == before.capacity && after.records@ == before.added(record)
        }
    }
}

} // verus!
