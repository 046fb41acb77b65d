//! I/O channel for NVMe controller, one per core: which driver calls make
//! a channel, in which order, and how a failure among them is unwound.
use crate::block_device::{IoType, ENOMEM};
use vstd::prelude::*;

verus! {

/// What is configured for the channels of NVMe controllers.
#[derive(Debug, Copy, Clone, PartialEq, Eq, Structural)]
pub struct NvmeBdevOpts {
    /// The least number of requests that a queue pair is made for.
    pub io_queue_requests: u32,
    /// The interval, in microseconds, at which completions are polled.
    pub nvme_ioq_poll_period_us: u64,
}

/// The options of a queue pair, as far as the channel sets them.
#[derive(Debug, Copy, Clone, PartialEq, Eq, Structural)]
pub struct QpairOpts {
    pub io_queue_requests: u32,
    pub create_only: bool,
}

/// A driver call that the channel asks for. Queue pairs, poll groups and
/// pollers go by the handles that the driver gave for them.
#[derive(Debug, Copy, Clone, PartialEq, Eq, Structural)]
pub enum ChannelAction {
    /// Allocate a queue pair on the controller.
    AllocQpair { opts: QpairOpts },
    /// Create the poll group of the channel.
    CreatePollGroup,
    /// Add the queue pair to the poll group.
    AddToPollGroup { poll_group: u64, qpair: u64 },
    /// Register the completion poller of the channel.
    RegisterPoller { period_us: u64 },
    /// Connect the queue pair.
    ConnectQpair { qpair: u64 },
    /// Reconnect a queue pair that the driver found disconnected.
    ReconnectQpair { qpair: u64 },
    /// Remove the queue pair from the poll group.
    RemoveFromPollGroup { poll_group: u64, qpair: u64 },
    /// Unregister the completion poller.
    UnregisterPoller { poller: u64 },
    /// Destroy the poll group.
    DestroyPollGroup { poll_group: u64 },
    /// Free the queue pair.
    FreeQpair { qpair: u64 },
    /// Nothing is left to do: the result of the whole, 0 for success.
    Done { rc: i32 },
}

/// Which result a failed setup gives.
#[derive(Debug, Copy, Clone, PartialEq, Eq, Structural)]
pub enum SetupKind {
    /// A channel is created: any failure gives 1.
    Create,
    /// The channel of a controller that was reset gets a new queue pair:
    /// poll group and poller are there already, and a failure gives the
    /// negative errno of the call that failed.
    Reinitialize,
}

/// Per-channel I/O statistics.
#[derive(Debug, Copy, Clone, PartialEq, Eq, Structural)]
pub struct IoStats {
    pub num_read_ops: u64,
    pub num_write_ops: u64,
    pub num_unmap_ops: u64,
    pub blocks_read: u64,
    pub blocks_written: u64,
    pub blocks_unmapped: u64,
}

pub struct NvmeIoChannelInner {
    /// The queue pair; none while the controller is being reset.
    pub qpair: Option<u64>,
    pub poller: u64,
    pub poll_group: u64,
    /// The number of I/Os that were dispatched and have not completed.
    pub num_pending_ios: u64,
    pub stats: IoStats,
}

/// The state of the setup of a channel: what was acquired so far, and
/// whether a step has failed.
#[derive(Debug, Copy, Clone, PartialEq, Eq, Structural)]
pub struct ChannelSetup {
    pub kind: SetupKind,
    pub opts: QpairOpts,
    pub period_us: u64,
    pub qpair: Option<u64>,
    pub poll_group: Option<u64>,
    pub in_group: bool,
    pub poller: Option<u64>,
    pub connected: bool,
    pub failed: Option<i32>,
}

/// The options that a queue pair is allocated with: the driver's
/// defaults, with room for at least the configured number of requests,
/// and left unconnected.
pub open spec fn qpair_opts_for(default_requests: u32, configured: NvmeBdevOpts) -> QpairOpts {
    QpairOpts {
        io_queue_requests: if default_requests > configured.io_queue_requests {
            default_requests
        } else {
            configured.io_queue_requests
        },
        create_only: true,
    }
}

/// The options that a queue pair is allocated with: the driver's
/// defaults, with room for at least the configured number of requests,
/// and left unconnected.
pub fn qpair_opts(default_requests: u32, configured: &NvmeBdevOpts) -> (opts: QpairOpts)
    ensures
        opts == qpair_opts_for(default_requests, *configured),
{
    QpairOpts {
        io_queue_requests: if default_requests > configured.io_queue_requests {
            default_requests
        } else {
            configured.io_queue_requests
        },
        create_only: true,
    }
}

/// The hint that the completion poller gives to the scheduler: 1 if
/// completions were processed, else 0.
pub fn nvme_poll(num_completions: i64) -> (hint: i32)
    ensures
        hint == if num_completions > 0 {
            1int
        } else {
            0int
        },
{
    if num_completions > 0 {
        1
    } else {
        0
    }
}

/// What to do when the driver reports a queue pair as disconnected:
/// reconnect it, however often that is. Only a reset tears a broken
/// channel down.
pub fn disconnected_qpair_cb(qpair: u64) -> (action: ChannelAction)
    ensures
        action == (ChannelAction::ReconnectQpair { qpair }),
{
    ChannelAction::ReconnectQpair { qpair }
}

impl ChannelSetup {
    /// What is held is held in order: a queue pair in a poll group needs
    /// both, a connected queue pair is in its group and polled, and on a
    /// reinitialization poll group and poller are there throughout.
    pub open spec fn wf(self) -> bool {
        &&& self.in_group ==> self.qpair is Some && self.poll_group is Some
        &&& self.connected ==> self.in_group && self.poller is Some
        &&& self.failed is Some ==> !self.connected
        &&& self.failed matches Some(rc) ==> rc != 0
        &&& self.kind == SetupKind::Reinitialize ==> self.poll_group is Some && self.poller is Some
    }

    /// Whether the channel is complete.
    pub open spec fn complete(self) -> bool {
        self.qpair is Some && self.poll_group is Some && self.in_group && self.poller is Some
            && self.connected
    }

    /// Whether the setup holds nothing that it acquired.
    pub open spec fn released(self) -> bool {
        &&& self.qpair is None
        &&& !self.in_group
        &&& self.kind == SetupKind::Create ==> self.poll_group is None && self.poller is None
    }

    /// The next driver call: while nothing has failed, the first of
    /// allocate, create poll group, add to poll group, register poller and
    /// connect that has not been made; after a failure, the last of them
    /// that has not been undone.
    pub open spec fn next_spec(self) -> ChannelAction {
        match self.failed {
            None => if self.qpair is None {
                ChannelAction::AllocQpair { opts: self.opts }
            } else if self.poll_group is None {
                ChannelAction::CreatePollGroup
            } else if !self.in_group {
                ChannelAction::AddToPollGroup {
                    poll_group: self.poll_group->Some_0,
                    qpair: self.qpair->Some_0,
                }
            } else if self.poller is None {
                ChannelAction::RegisterPoller { period_us: self.period_us }
            } else if !self.connected {
                ChannelAction::ConnectQpair { qpair: self.qpair->Some_0 }
            } else {
                ChannelAction::Done { rc: 0 }
            },
            Some(rc) => if self.poller is Some && self.kind == SetupKind::Create {
                ChannelAction::UnregisterPoller { poller: self.poller->Some_0 }
            } else if self.in_group {
                ChannelAction::RemoveFromPollGroup {
                    poll_group: self.poll_group->Some_0,
                    qpair: self.qpair->Some_0,
                }
            } else if self.poll_group is Some && self.kind == SetupKind::Create {
                ChannelAction::DestroyPollGroup { poll_group: self.poll_group->Some_0 }
            } else if self.qpair is Some {
                ChannelAction::FreeQpair { qpair: self.qpair->Some_0 }
            } else {
                ChannelAction::Done { rc }
            },
        }
    }

    /// The number of driver calls that are left at most: while nothing
    /// has failed, ten less what is held; after a failure, what is still
    /// to be released.
    pub open spec fn steps_left(self) -> nat {
        let one = |held: bool| if held { 1nat } else { 0nat };
        let own = self.kind == SetupKind::Create;
        match self.failed {
            None => (10 - one(self.qpair is Some) - one(self.poll_group is Some) - one(
                self.in_group,
            ) - one(self.poller is Some) - one(self.connected)) as nat,
            Some(_) => one(self.qpair is Some) + one(self.poll_group is Some && own) + one(
                self.in_group,
            ) + one(self.poller is Some && own),
        }
    }

    /// The result that a failure of a step gives: on creation always 1;
    /// on reinitialization `-ENOMEM` where no queue pair could be
    /// allocated, else the result of the call that failed.
    pub open spec fn failure_code(self, action: ChannelAction, rc: i32) -> i32 {
        match self.kind {
            SetupKind::Create => 1,
            SetupKind::Reinitialize => match action {
                ChannelAction::AllocQpair { .. } => (-ENOMEM) as i32,
                _ => rc,
            },
        }
    }

    /// The state after the next driver call has returned `outcome`: for a
    /// call that makes something, its handle or its failure; for the
    /// others, zero or the failure.
    pub open spec fn advance_spec(self, outcome: Result<u64, i32>) -> ChannelSetup {
        let action = self.next_spec();
        match action {
            ChannelAction::AllocQpair { .. } => match outcome {
                Ok(qpair) => ChannelSetup { qpair: Some(qpair), ..self },
                Err(rc) => ChannelSetup { failed: Some(self.failure_code(action, rc)), ..self },
            },
            ChannelAction::CreatePollGroup => match outcome {
                Ok(group) => ChannelSetup { poll_group: Some(group), ..self },
                Err(rc) => ChannelSetup { failed: Some(self.failure_code(action, rc)), ..self },
            },
            ChannelAction::AddToPollGroup { .. } => match outcome {
                Ok(_) => ChannelSetup { in_group: true, ..self },
                Err(rc) => ChannelSetup { failed: Some(self.failure_code(action, rc)), ..self },
            },
            ChannelAction::RegisterPoller { .. } => match outcome {
                Ok(poller) => ChannelSetup { poller: Some(poller), ..self },
                Err(rc) => ChannelSetup { failed: Some(self.failure_code(action, rc)), ..self },
            },
            ChannelAction::ConnectQpair { .. } => match outcome {
                Ok(_) => ChannelSetup { connected: true, ..self },
                Err(rc) => ChannelSetup { failed: Some(self.failure_code(action, rc)), ..self },
            },
            ChannelAction::UnregisterPoller { .. } => ChannelSetup { poller: None, ..self },
            ChannelAction::RemoveFromPollGroup { .. } => ChannelSetup { in_group: false, ..self },
            ChannelAction::DestroyPollGroup { .. } => ChannelSetup { poll_group: None, ..self },
            ChannelAction::FreeQpair { .. } => ChannelSetup { qpair: None, ..self },
            ChannelAction::ReconnectQpair { .. } => self,
            ChannelAction::Done { .. } => self,
        }
    }

    /// The setup of a new channel at its start: nothing is held, the
    /// queue pair will be allocated with the options made from the
    /// driver's default and what is configured, and the poller will run at
    /// the configured interval.
    pub open spec fn fresh(default_requests: u32, configured: NvmeBdevOpts) -> ChannelSetup {
        ChannelSetup {
            kind: SetupKind::Create,
            opts: qpair_opts_for(default_requests, configured),
            period_us: configured.nvme_ioq_poll_period_us,
            qpair: None,
            poll_group: None,
            in_group: false,
            poller: None,
            connected: false,
            failed: None,
        }
    }

    /// The setup that gives a channel a new queue pair, at its start: the
    /// channel's poll group and poller are held, the queue pair will be
    /// allocated with the options made from the driver's default and what
    /// is configured.
    pub open spec fn renewal(
        inner: NvmeIoChannelInner,
        default_requests: u32,
        configured: NvmeBdevOpts,
    ) -> ChannelSetup {
        ChannelSetup {
            kind: SetupKind::Reinitialize,
            opts: qpair_opts_for(default_requests, configured),
            period_us: configured.nvme_ioq_poll_period_us,
            qpair: None,
            poll_group: Some(inner.poll_group),
            in_group: false,
            poller: Some(inner.poller),
            connected: false,
            failed: None,
        }
    }

    /// Starts the setup of a new channel.
    pub fn create(default_requests: u32, configured: &NvmeBdevOpts) -> (setup: ChannelSetup)
        ensures
            setup == Self::fresh(default_requests, *configured),
            setup.wf(),
            setup.released(),
            setup.next_spec() == (ChannelAction::AllocQpair {
                opts: qpair_opts_for(default_requests, *configured),
            }),
    {
        ChannelSetup {
            kind: SetupKind::Create,
            opts: qpair_opts(default_requests, configured),
            period_us: configured.nvme_ioq_poll_period_us,
            qpair: None,
            poll_group: None,
            in_group: false,
            poller: None,
            connected: false,
            failed: None,
        }
    }

    /// The next driver call, or the result of the setup.
    pub fn next(&self) -> (action: ChannelAction)
        requires
            self.wf(),
        ensures
            action == self.next_spec(),
            action matches ChannelAction::Done { rc } ==> if rc == 0 {
                self.complete()
            } else {
                self.released()
            },
            action is Done <==> self.steps_left() == 0 || (self.failed is None && self.complete()),
    {
        match self.failed {
            None => {
                match (self.qpair, self.poll_group) {
                    (None, _) => ChannelAction::AllocQpair { opts: self.opts },
                    (Some(_), None) => ChannelAction::CreatePollGroup,
                    (Some(qpair), Some(poll_group)) => {
                        if !self.in_group {
                            ChannelAction::AddToPollGroup { poll_group, qpair }
                        } else if self.poller.is_none() {
                            ChannelAction::RegisterPoller { period_us: self.period_us }
                        } else if !self.connected {
                            ChannelAction::ConnectQpair { qpair }
                        } else {
                            ChannelAction::Done { rc: 0 }
                        }
                    },
                }
            },
            Some(rc) => {
                let create = match self.kind {
                    SetupKind::Create => true,
                    SetupKind::Reinitialize => false,
                };
                match (self.poller, self.poll_group, self.qpair) {
                    (Some(poller), _, _) if create => ChannelAction::UnregisterPoller { poller },
                    (_, Some(poll_group), Some(qpair)) if self.in_group => {
                        ChannelAction::RemoveFromPollGroup { poll_group, qpair }
                    },
                    (_, Some(poll_group), _) if create => ChannelAction::DestroyPollGroup {
                        poll_group,
                    },
                    (_, _, Some(qpair)) => ChannelAction::FreeQpair { qpair },
                    _ => ChannelAction::Done { rc },
                }
            },
        }
    }

    /// Takes in what the driver call asked for by `next` returned.
    ///
    /// Each call brings the setup nearer to its end: towards the complete
    /// channel while nothing has failed, towards the release of all that
    /// was acquired afterwards.
    pub fn advance(&mut self, outcome: Result<u64, i32>)
        requires
            old(self).wf(),
            !(old(self).next_spec() is Done),
            outcome matches Err(rc) ==> rc != 0 && rc != i32::MIN,
        ensures
            *final(self) == old(self).advance_spec(outcome),
            final(self).wf(),
            final(self).steps_left() < old(self).steps_left(),
            old(self).failed is Some ==> final(self).failed == old(self).failed,
    {
        let action = self.next();
        match action {
            ChannelAction::AllocQpair { .. } => {
                match outcome {
                    Ok(qpair) => {
                        self.qpair = Some(qpair);
                    },
                    Err(rc) => {
                        self.failed = Some(
                            match self.kind {
                                SetupKind::Create => 1,
                                SetupKind::Reinitialize => -ENOMEM,
                            },
                        );
                    },
                }
            },
            ChannelAction::CreatePollGroup => {
                match outcome {
                    Ok(group) => {
                        self.poll_group = Some(group);
                    },
                    Err(rc) => {
                        self.failed = Some(self.code(rc));
                    },
                }
            },
            ChannelAction::AddToPollGroup { .. } => {
                match outcome {
                    Ok(_) => {
                        self.in_group = true;
                    },
                    Err(rc) => {
                        self.failed = Some(self.code(rc));
                    },
                }
            },
            ChannelAction::RegisterPoller { .. } => {
                match outcome {
                    Ok(poller) => {
                        self.poller = Some(poller);
                    },
                    Err(rc) => {
                        self.failed = Some(self.code(rc));
                    },
                }
            },
            ChannelAction::ConnectQpair { .. } => {
                match outcome {
                    Ok(_) => {
                        self.connected = true;
                    },
                    Err(rc) => {
                        self.failed = Some(self.code(rc));
                    },
                }
            },
            ChannelAction::UnregisterPoller { .. } => {
                self.poller = None;
            },
            ChannelAction::RemoveFromPollGroup { .. } => {
                self.in_group = false;
            },
            ChannelAction::DestroyPollGroup { .. } => {
                self.poll_group = None;
            },
            ChannelAction::FreeQpair { .. } => {
                self.qpair = None;
            },
            ChannelAction::ReconnectQpair { .. } => {},
            ChannelAction::Done { .. } => {},
        }
    }

    /// The result that the failure of a call other than the allocation of
    /// the queue pair gives.
    fn code(&self, rc: i32) -> (code: i32)
        requires
            rc != 0,
        ensures
            code != 0,
            code == match self.kind {
                SetupKind::Create => 1,
                SetupKind::Reinitialize => rc,
            },
    {
        match self.kind {
            SetupKind::Create => 1,
            SetupKind::Reinitialize => rc,
        }
    }

    /// The channel that a complete setup has made.
    pub fn finish(&self) -> (r: Result<NvmeIoChannelInner, i32>)
        requires
            self.wf(),
            self.next_spec() is Done,
        ensures
            match r {
                Ok(inner) => {
                    &&& self.next_spec() == (ChannelAction::Done { rc: 0 })
                    &&& self.complete()
                    &&& inner.qpair == self.qpair
                    &&& Some(inner.poll_group) == self.poll_group
                    &&& Some(inner.poller) == self.poller
                    &&& inner.num_pending_ios == 0
                    &&& inner.stats == IoStats::zero()
                },
                Err(rc) => rc != 0 && self.next_spec() == (ChannelAction::Done { rc })
                    && self.released(),
            },
    {
        match (self.failed, self.qpair, self.poll_group, self.poller) {
            (None, Some(qpair), Some(poll_group), Some(poller)) => Ok(
                NvmeIoChannelInner {
                    qpair: Some(qpair),
                    poller,
                    poll_group,
                    num_pending_ios: 0,
                    stats: IoStats::new(),
                },
            ),
            (Some(rc), _, _, _) => Err(rc),
            _ => Err(1),
        }
    }
}

impl IoStats {
    /// Statistics of a channel that has served no I/O.
    pub open spec fn zero() -> IoStats {
        IoStats {
            num_read_ops: 0,
            num_write_ops: 0,
            num_unmap_ops: 0,
            blocks_read: 0,
            blocks_written: 0,
            blocks_unmapped: 0,
        }
    }

    /// The sum of two counts, as far as a counter can hold it.
    pub open spec fn sum(a: u64, b: u64) -> u64 {
        if a + b > u64::MAX {
            u64::MAX
        } else {
            (a + b) as u64
        }
    }

    /// The statistics after `num_ops` operations of kind `op` over
    /// `num_blocks` blocks were served. Reads, writes and unmaps are
    /// counted; a counter that is full stays full.
    pub open spec fn accounted(self, op: IoType, num_ops: u64, num_blocks: u64) -> IoStats {
        match op {
            IoType::Read => IoStats {
                num_read_ops: Self::sum(self.num_read_ops, num_ops),
                blocks_read: Self::sum(self.blocks_read, num_blocks),
                ..self
            },
            IoType::Write => IoStats {
                num_write_ops: Self::sum(self.num_write_ops, num_ops),
                blocks_written: Self::sum(self.blocks_written, num_blocks),
                ..self
            },
            IoType::Unmap => IoStats {
                num_unmap_ops: Self::sum(self.num_unmap_ops, num_ops),
                blocks_unmapped: Self::sum(self.blocks_unmapped, num_blocks),
                ..self
            },
            _ => self,
        }
    }

    /// Statistics of a channel that has served no I/O.
    pub fn new() -> (stats: IoStats)
        ensures
            stats == Self::zero(),
    {
        IoStats {
            num_read_ops: 0,
            num_write_ops: 0,
            num_unmap_ops: 0,
            blocks_read: 0,
            blocks_written: 0,
            blocks_unmapped: 0,
        }
    }

    /// Counts operations that were served.
    pub fn account_block_io(&mut self, op: IoType, num_ops: u64, num_blocks: u64)
        ensures
            *final(self) == old(self).accounted(op, num_ops, num_blocks),
    {
        match op {
            IoType::Read => {
                self.num_read_ops = self.num_read_ops.saturating_add(num_ops);
                self.blocks_read = self.blocks_read.saturating_add(num_blocks);
            },
            IoType::Write => {
                self.num_write_ops = self.num_write_ops.saturating_add(num_ops);
                self.blocks_written = self.blocks_written.saturating_add(num_blocks);
            },
            IoType::Unmap => {
                self.num_unmap_ops = self.num_unmap_ops.saturating_add(num_ops);
                self.blocks_unmapped = self.blocks_unmapped.saturating_add(num_blocks);
            },
            _ => {},
        }
    }
}

impl NvmeIoChannelInner {
    /// Whether I/O may be dispatched to the channel: it has a queue pair.
    pub open spec fn live(self) -> bool {
        self.qpair is Some
    }

    /// Starts to give the channel a new queue pair after a reset of its
    /// controller. The channel keeps its poll group and its poller.
    pub fn reinitialize(&self, default_requests: u32, configured: &NvmeBdevOpts) -> (setup:
        ChannelSetup)
        requires
            self.qpair is None,
        ensures
            setup == ChannelSetup::renewal(*self, default_requests, *configured),
            setup.wf(),
            setup.next_spec() == (ChannelAction::AllocQpair {
                opts: qpair_opts_for(default_requests, *configured),
            }),
    {
        ChannelSetup {
            kind: SetupKind::Reinitialize,
            opts: qpair_opts(default_requests, configured),
            period_us: configured.nvme_ioq_poll_period_us,
            qpair: None,
            poll_group: Some(self.poll_group),
            in_group: false,
            poller: Some(self.poller),
            connected: false,
            failed: None,
        }
    }

    /// Ends a reinitialization: a setup that succeeded gives the channel
    /// its queue pair, and the result is 0; else the channel stays without
    /// one, and the result is that of the setup.
    pub fn reinitialized(&mut self, setup: &ChannelSetup) -> (rc: i32)
        requires
            setup.wf(),
            setup.kind == SetupKind::Reinitialize,
            setup.next_spec() is Done,
            old(self).qpair is None,
        ensures
            setup.next_spec() == (ChannelAction::Done { rc }),
            rc == 0 ==> final(self).qpair == setup.qpair && final(self).live(),
            rc != 0 ==> final(self).qpair is None,
            final(self).poll_group == old(self).poll_group,
            final(self).poller == old(self).poller,
            final(self).num_pending_ios == old(self).num_pending_ios,
            final(self).stats == old(self).stats,
    {
        match setup.next() {
            ChannelAction::Done { rc } => {
                if rc == 0 {
                    self.qpair = setup.qpair;
                }
                rc
            },
            _ => 0,
        }
    }

    /// Clears the queue pair for a reset of the controller: until the
    /// channel is reinitialized no I/O is dispatched to it. Gives the
    /// driver calls that release the queue pair.
    pub fn clear_qpair(&mut self) -> (actions: Vec<ChannelAction>)
        ensures
            final(self).qpair is None,
            final(self).poll_group == old(self).poll_group,
            final(self).poller == old(self).poller,
            final(self).num_pending_ios == old(self).num_pending_ios,
            final(self).stats == old(self).stats,
            actions@ == match old(self).qpair {
                Some(qpair) => seq![
                    ChannelAction::RemoveFromPollGroup { poll_group: old(self).poll_group, qpair },
                    ChannelAction::FreeQpair { qpair },
                ],
                None => Seq::empty(),
            },
    {
        let mut actions: Vec<ChannelAction> = Vec::new();
        if let Some(qpair) = self.qpair {
            actions.push(ChannelAction::RemoveFromPollGroup { poll_group: self.poll_group, qpair });
            actions.push(ChannelAction::FreeQpair { qpair });
        }
        self.qpair = None;
        actions
    }

    /// Counts an I/O that was dispatched.
    pub fn account_io(&mut self)
        ensures
            final(self).num_pending_ios == IoStats::sum(old(self).num_pending_ios, 1),
            final(self).qpair == old(self).qpair,
            final(self).poll_group == old(self).poll_group,
            final(self).poller == old(self).poller,
            final(self).stats == old(self).stats,
    {
        self.num_pending_ios = self.num_pending_ios.saturating_add(1);
    }

    /// Counts an I/O that has completed.
    pub fn discard_io(&mut self)
        ensures
            final(self).num_pending_ios == if old(self).num_pending_ios > 0 {
                old(self).num_pending_ios - 1
            } else {
                0
            },
            final(self).qpair == old(self).qpair,
            final(self).poll_group == old(self).poll_group,
            final(self).poller == old(self).poller,
            final(self).stats == old(self).stats,
    {
        self.num_pending_ios = self.num_pending_ios.saturating_sub(1);
    }
}

/// The driver calls that destroy a channel, in their order: the queue
/// pair leaves the poll group, the poller is unregistered, the poll group
/// is destroyed, the queue pair is freed. A channel without queue pair
/// skips the first and the last.
pub fn destroy_channel(inner: &NvmeIoChannelInner) -> (actions: Vec<ChannelAction>)
    ensures
        actions@ == match inner.qpair {
            Some(qpair) => seq![
                ChannelAction::RemoveFromPollGroup { poll_group: inner.poll_group, qpair },
                ChannelAction::UnregisterPoller { poller: inner.poller },
                ChannelAction::DestroyPollGroup { poll_group: inner.poll_group },
                ChannelAction::FreeQpair { qpair },
            ],
            None => seq![
                ChannelAction::UnregisterPoller { poller: inner.poller },
                ChannelAction::DestroyPollGroup { poll_group: inner.poll_group },
            ],
        },
{
    let mut actions: Vec<ChannelAction> = Vec::new();
    if let Some(qpair) = inner.qpair {
        actions.push(ChannelAction::RemoveFromPollGroup { poll_group: inner.poll_group, qpair });
    }
    actions.push(ChannelAction::UnregisterPoller { poller: inner.poller });
    actions.push(ChannelAction::DestroyPollGroup { poll_group: inner.poll_group });
    if let Some(qpair) = inner.qpair {
        actions.push(ChannelAction::FreeQpair { qpair });
    }
    actions
}

/// Starts the creation of the channel of a controller; `default_requests`
/// is what the driver gives as the default size of a queue, or nothing if
/// the controller is not known, in which case the creation fails with 1.
pub fn create_channel(default_requests: Option<u32>, configured: &NvmeBdevOpts) -> (r: Result<
    ChannelSetup,
    i32,
>)
    ensures
        match r {
            Ok(setup) => {
                &&& default_requests matches Some(requests)
                &&& setup == ChannelSetup::fresh(requests, *configured)
                &&& setup.wf()
                &&& setup.released()
            },
            Err(rc) => default_requests is None && rc == 1,
        },
{
    match default_requests {
        None => Err(1),
        Some(requests) => Ok(ChannelSetup::create(requests, configured)),
    }
}

/// Wrapper around SPDK I/O channel.
#[derive(Debug, PartialEq, Eq)]
pub struct NvmeControllerIoChannel(pub u64);

impl NvmeControllerIoChannel {
    /// The channel behind a handle, unless the handle is null.
    pub fn from_null_checked(ch: u64) -> (r: Option<NvmeControllerIoChannel>)
        ensures
            r == if ch == 0 {
                None
            } else {
                Some(NvmeControllerIoChannel(ch))
            },
    {
        if ch == 0 {
            None
        } else {
            Some(NvmeControllerIoChannel(ch))
        }
    }

    /// The handle of the channel.
    pub fn as_ptr(&self) -> (ch: u64)
        ensures
            ch == self.0,
    {
        self.0
    }
}

/// The per-core context of a channel: it holds the inner channel from the
/// end of its creation to its destruction.
pub struct NvmeIoChannel {
    pub inner: Option<NvmeIoChannelInner>,
}

impl NvmeIoChannel {
    /// The inner channel.
    pub fn inner_from_channel(&self) -> (inner: &NvmeIoChannelInner)
        requires
            self.inner is Some,
        ensures
            Some(*inner) == self.inner,
    {
        self.inner.as_ref().unwrap()
    }
}

} // verus!
