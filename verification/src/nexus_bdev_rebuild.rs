//! A child that leaves the I/O path of its nexus takes the rebuild jobs
//! with it that it is part of. The jobs are asked to stop before the child
//! goes; those that only lose their source are started again afterwards,
//! from another child.
use crate::nexus_bdev::{position, Nexus, NexusStatus};
use crate::nexus_bdev_children::{lemma_position, with_state, ErrorKind, NexusError};
use crate::nexus_child::{Bdev, ChildState, NexusChild, Reason};
use crate::rebuild::{
    job_position, lemma_job_position, orphaned, stopped, touches, RebuildError, RebuildJob,
    RebuildJobs, RebuildOperation, RebuildState,
};
use vstd::prelude::*;

verus! {

/// What is to be done about a change to a child: the destinations of the
/// jobs that were asked to stop, whether the I/O channels of the nexus are
/// to be reconfigured, and the destinations whose rebuild is to be
/// started again once the change is made.
#[derive(Debug, PartialEq, Eq)]
pub struct RebuildOrders {
    pub cancelled: Vec<String>,
    pub reconfigure: bool,
    pub restart: Vec<String>,
}

/// What is to be done before a child is removed: the destinations of the
/// jobs that were asked to stop, whether there is a child to close, and
/// the destinations whose rebuild is to be started again once the child
/// is removed.
#[derive(Debug, PartialEq, Eq)]
pub struct RemovalOrders {
    pub cancelled: Vec<String>,
    pub close: bool,
    pub restart: Vec<String>,
}

/// The names in a list, as sequences of characters.
pub open spec fn names(list: Seq<String>) -> Seq<Seq<char>> {
    list.map_values(|name: String| name@)
}

/// The destinations among the first `upto` jobs that have the child
/// `name` as source or as destination, in the order of the jobs.
pub open spec fn touching(jobs: Seq<RebuildJob>, name: Seq<char>, upto: int) -> Seq<Seq<char>>
    decreases upto,
{
    if upto <= 0 {
        Seq::empty()
    } else if touches(jobs[upto - 1], name) {
        touching(jobs, name, upto - 1).push(jobs[upto - 1].destination@)
    } else {
        touching(jobs, name, upto - 1)
    }
}

/// Whether `after` are the jobs `before` once those of the child `name`
/// were asked to stop: each such job is stopped or about to, the others
/// are as they were.
pub open spec fn cancelled(before: Seq<RebuildJob>, after: Seq<RebuildJob>, name: Seq<char>) -> bool {
    &&& after.len() == before.len()
    &&& forall|i: int|
        0 <= i < before.len() ==> (#[trigger] after[i]) == if touches(before[i], name) {
            stopped(before[i])
        } else {
            before[i]
        }
}

/// Whether the jobs `after` and the lists of destinations are what
/// stopping the jobs of the child `name` makes of the jobs `before`.
pub open spec fn jobs_cancelled(
    before: Seq<RebuildJob>,
    after: Seq<RebuildJob>,
    name: Seq<char>,
    stopping: Seq<String>,
    restart: Seq<String>,
) -> bool {
    &&& cancelled(before, after, name)
    &&& names(stopping) == touching(before, name, before.len() as int)
    &&& names(restart) == orphaned(before, name, before.len() as int)
}

/// The index of the first child at or behind `from` that is open and
/// does not bear `name`: the child that a rebuild of the child `name`
/// copies from. The number of children if there is none.
pub open spec fn source_position(children: Seq<NexusChild>, name: Seq<char>, from: int) -> int
    decreases children.len() - from,
{
    if from >= children.len() {
        children.len() as int
    } else if children[from].is_open() && children[from].name@ != name {
        from
    } else {
        source_position(children, name, from + 1)
    }
}

/// The source of a rebuild is an open child other than the destination,
/// and the first such child.
pub proof fn lemma_source_position(children: Seq<NexusChild>, name: Seq<char>, from: int)
    requires
        0 <= from <= children.len(),
    ensures
        from <= source_position(children, name, from) <= children.len(),
        source_position(children, name, from) < children.len() ==> {
            let source = children[source_position(children, name, from)];
            source.is_open() && source.name@ != name
        },
        forall|i: int|
            from <= i < source_position(children, name, from) ==> !((#[trigger] children[i]).is_open()
                && children[i].name@ != name),
    decreases children.len() - from,
{
    if from < children.len() && !(children[from].is_open() && children[from].name@ != name) {
        lemma_source_position(children, name, from + 1);
    }
}

/// Whether the last of the jobs is the only one that has the
/// destination given.
pub open spec fn last_is_only_job(jobs: Seq<RebuildJob>, destination: Seq<char>) -> bool {
    forall|i: int|
        0 <= i < jobs.len() ==> ((#[trigger] jobs[i]).destination@ == destination <==> i
            == jobs.len() - 1)
}

impl RebuildJobs {
    /// The destinations of the jobs that the child `name` takes part in,
    /// as source or as destination, in the order of the jobs.
    pub fn child_rebuild_jobs(&self, name: &str) -> (found: Vec<String>)
        ensures
            names(found@) == touching(self.jobs@, name@, self.jobs@.len() as int),
    {
        let wanted = name.to_owned();
        let mut found: Vec<String> = Vec::new();
        let mut i: usize = 0;
        assert(names(found@) =~= touching(self.jobs@, name@, 0));
        while i < self.jobs.len()
            invariant
                i <= self.jobs@.len(),
                wanted@ == name@,
                names(found@) == touching(self.jobs@, name@, i as int),
            decreases self.jobs@.len() - i,
        {
            if self.jobs[i].source == wanted || self.jobs[i].destination == wanted {
                let ghost listed = names(found@);
                found.push(self.jobs[i].destination.clone());
                assert(names(found@) =~= listed.push(self.jobs@[i as int].destination@));
            }
            i = i + 1;
        }
        found
    }

    /// Stops the rebuild jobs that the child `name` takes part in. Gives
    /// the destinations of the jobs that were asked to stop, and of those
    /// among them that are to be started again from another child.
    pub fn cancel_for(&mut self, name: &str) -> (r: (Vec<String>, Vec<String>))
        requires
            old(self).wf(),
        ensures
            final(self).wf(),
            jobs_cancelled(old(self).jobs@, final(self).jobs@, name@, r.0@, r.1@),
    {
        let stopping = self.child_rebuild_jobs(name);
        let restart = self.cancel_child_rebuild_jobs(name);
        assert(names(restart@) =~= restart@.map_values(|destination: String| destination@));
        (stopping, restart)
    }
}

impl Nexus {
    /// Whether the child `name` is the only child that is open.
    pub fn is_last_healthy(&self, name: &str) -> (last: bool)
        requires
            self.wf(),
        ensures
            last == self.last_healthy(name@),
    {
        proof {
            lemma_position(self.children@, name@, 0);
        }
        if self.count_open() != 1 {
            return false;
        }
        match self.find_child(name) {
            Some(at) => match self.children[at].state {
                ChildState::Open => true,
                _ => false,
            },
            None => false,
        }
    }

    /// fault a child device and reconfigure the IO channels
    ///
    /// A fault that is refused because of the children that the nexus
    /// would be left with touches no rebuild job. Else the jobs that the
    /// child takes part in are asked to stop, then the child is faulted.
    /// The jobs that lost their source are to be started again whether or
    /// not there was a child to fault.
    pub fn fault_child_and_rebuilds(&mut self, jobs: &mut RebuildJobs, name: &str, reason: Reason) -> (r:
        (Result<(), NexusError>, RebuildOrders))
        requires
            old(self).wf(),
            old(jobs).wf(),
        ensures
            final(self).wf(),
            final(jobs).wf(),
            Self::child_faulted(
                *old(self),
                *final(self),
                name@,
                reason,
                match r.0 {
                    Ok(()) => Ok(r.1.reconfigure),
                    Err(error) => Err(error),
                },
            ),
            r.0 is Err ==> !r.1.reconfigure,
            if old(self).child_count < 2 || old(self).last_healthy(name@) {
                &&& *final(jobs) == *old(jobs)
                &&& r.1.cancelled@.len() == 0
                &&& r.1.restart@.len() == 0
            } else {
                jobs_cancelled(old(jobs).jobs@, final(jobs).jobs@, name@, r.1.cancelled@, r.1.restart@)
            },
    {
        if self.child_count < 2 || self.is_last_healthy(name) {
            let idle = RebuildOrders {
                cancelled: Vec::new(),
                reconfigure: false,
                restart: Vec::new(),
            };
            return match self.fault_child(name, reason) {
                Ok(_) => (Ok(()), idle),
                Err(error) => (Err(error), idle),
            };
        }
        let (cancelled, restart) = jobs.cancel_for(name);
        match self.fault_child(name, reason) {
            Ok(reconfigure) => (Ok(()), RebuildOrders { cancelled, reconfigure, restart }),
            Err(error) => (Err(error), RebuildOrders { cancelled, reconfigure: false, restart }),
        }
    }

    /// offline a child device and reconfigure the IO channels
    ///
    /// The jobs that the child takes part in are asked to stop, then the
    /// child is closed. Where there is no such child, nothing is
    /// reconfigured and no rebuild is started again.
    pub fn offline_child_and_rebuilds(&mut self, jobs: &mut RebuildJobs, name: &str) -> (r: (
        Result<NexusStatus, NexusError>,
        RebuildOrders,
    ))
        requires
            old(self).wf(),
            old(jobs).wf(),
        ensures
            final(self).wf(),
            final(jobs).wf(),
            Self::child_offlined(*old(self), *final(self), name@, r.0),
            cancelled(old(jobs).jobs@, final(jobs).jobs@, name@),
            names(r.1.cancelled@) == touching(old(jobs).jobs@, name@, old(jobs).jobs@.len() as int),
            r.1.reconfigure == r.0 is Ok,
            if r.0 is Ok {
                names(r.1.restart@) == orphaned(
                    old(jobs).jobs@,
                    name@,
                    old(jobs).jobs@.len() as int,
                )
            } else {
                r.1.restart@.len() == 0
            },
    {
        let (cancelled, restart) = jobs.cancel_for(name);
        match self.offline_child(name) {
            Ok(status) => (Ok(status), RebuildOrders { cancelled, reconfigure: true, restart }),
            Err(error) => (
                Err(error),
                RebuildOrders { cancelled, reconfigure: false, restart: Vec::new() },
            ),
        }
    }

    /// The first half of the removal of a child: the last child of a
    /// nexus is not removed, and no rebuild job is touched for it. Else
    /// the jobs that the child takes part in are asked to stop. The child,
    /// if there is one, is to be closed next.
    pub fn begin_remove_child(&self, jobs: &mut RebuildJobs, uri: &str) -> (r: Result<
        RemovalOrders,
        NexusError,
    >)
        requires
            self.wf(),
            old(jobs).wf(),
        ensures
            final(jobs).wf(),
            match r {
                Ok(orders) => {
                    &&& self.child_count != 1
                    &&& jobs_cancelled(
                        old(jobs).jobs@,
                        final(jobs).jobs@,
                        uri@,
                        orders.cancelled@,
                        orders.restart@,
                    )
                    &&& orders.close == self.has_child(uri@)
                },
                Err(error) => {
                    &&& self.child_count == 1
                    &&& error.is(ErrorKind::DestroyLastChild, self.name@, uri@)
                    &&& *final(jobs) == *old(jobs)
                },
            },
    {
        if self.child_count == 1 {
            return Err(
                NexusError::DestroyLastChild { name: self.name.clone(), child: uri.to_owned() },
            );
        }
        let (cancelled, restart) = jobs.cancel_for(uri);
        proof {
            lemma_position(self.children@, uri@, 0);
        }
        let close = self.find_child(uri).is_some();
        Ok(RemovalOrders { cancelled, close, restart })
    }

    /// The second half of the removal of a child, once its jobs were
    /// asked to stop and `closed` says whether it could be closed: the
    /// child leaves the nexus. Gives the destinations whose rebuild is to
    /// be started again: those of the orders if a child was removed, none
    /// if there was no such child.
    pub fn finish_remove_child(&mut self, uri: &str, closed: bool, orders: RemovalOrders) -> (r:
        Result<Vec<String>, NexusError>)
        requires
            old(self).wf(),
        ensures
            final(self).wf(),
            Self::child_removed(
                *old(self),
                *final(self),
                uri@,
                closed,
                match r {
                    Ok(_) => Ok(()),
                    Err(error) => Err(error),
                },
            ),
            r matches Ok(restart) ==> if old(self).has_child(uri@) {
                restart == orders.restart
            } else {
                restart@.len() == 0
            },
    {
        proof {
            lemma_position(self.children@, uri@, 0);
        }
        let found = self.find_child(uri).is_some();
        match self.remove_child(uri, closed) {
            Ok(()) => if found {
                Ok(orders.restart)
            } else {
                Ok(Vec::new())
            },
            Err(error) => Err(error),
        }
    }
}

impl Nexus {
    /// What stands against the start of a rebuild of the child
    /// `destination`, if anything: no other child is open to copy from,
    /// the destination is no child that is out of sync, there is nothing
    /// to copy or no size to copy it in, or the destination has a job
    /// already.
    pub open spec fn rebuild_refusal(
        self,
        jobs: Seq<RebuildJob>,
        destination: Seq<char>,
        segment_size_blks: u64,
    ) -> Option<RebuildError> {
        let at = position(self.children@, destination, 0);
        if source_position(self.children@, destination, 0) >= self.children@.len() {
            Some(RebuildError::NoSource)
        } else if !(at < self.children@.len() && self.children@[at].state == ChildState::Faulted(
            Reason::OutOfSync,
        )) {
            Some(RebuildError::NoDestination)
        } else if self.num_blocks == 0 || self.data_ent_offset + self.num_blocks > u64::MAX
            || segment_size_blks == 0 {
            Some(RebuildError::InvalidParameters)
        } else if job_position(jobs, destination, 0) < jobs.len() {
            Some(RebuildError::JobAlreadyExists)
        } else {
            None
        }
    }

    /// Whether `job` is the job that a rebuild of the child `destination`
    /// starts with: it copies the blocks of the nexus from the first open
    /// child other than the destination, and is running, with nothing
    /// copied yet.
    pub open spec fn rebuild_job(
        self,
        job: RebuildJob,
        destination: Seq<char>,
        segment_size_blks: u64,
    ) -> bool {
        &&& job.nexus@ == self.name@
        &&& job.source@ == self.children@[source_position(self.children@, destination, 0)].name@
        &&& job.destination@ == destination
        &&& job.start == self.data_ent_offset
        &&& job.end == self.data_ent_offset + self.num_blocks
        &&& job.next == job.start
        &&& job.segment_size_blks == segment_size_blks
        &&& job.outstanding == 0
        &&& job.current == RebuildState::Running
        &&& job.pending is None
    }

    /// The index of the child that a rebuild of the child `destination`
    /// copies from.
    pub fn rebuild_source(&self, destination: &str) -> (r: Option<usize>)
        ensures
            match r {
                Some(at) => at < self.children@.len() && at == source_position(
                    self.children@,
                    destination@,
                    0,
                ),
                None => source_position(self.children@, destination@, 0) >= self.children@.len(),
            },
    {
        let wanted = destination.to_owned();
        let mut i: usize = 0;
        while i < self.children.len()
            invariant
                i <= self.children@.len(),
                wanted@ == destination@,
                source_position(self.children@, destination@, 0) == source_position(
                    self.children@,
                    destination@,
                    i as int,
                ),
            decreases self.children@.len() - i,
        {
            let open = match self.children[i].state {
                ChildState::Open => true,
                _ => false,
            };
            if open && self.children[i].name != wanted {
                return Some(i);
            }
            i = i + 1;
        }
        None
    }

    /// Starts the rebuild of the child `destination`: a job that copies
    /// the blocks of the nexus to it from the first open child other than
    /// it joins the registry, and runs. The destination must be a child
    /// that is out of sync, without a job. On an error the registry is
    /// as before.
    pub fn start_rebuild(&self, jobs: &mut RebuildJobs, destination: &str, segment_size_blks: u64) -> (r:
        Result<(), RebuildError>)
        requires
            self.wf(),
            old(jobs).wf(),
        ensures
            final(jobs).wf(),
            match r {
                Ok(()) => {
                    &&& self.rebuild_refusal(old(jobs).jobs@, destination@, segment_size_blks) is None
                    &&& final(jobs).jobs@.len() == old(jobs).jobs@.len() + 1
                    &&& final(jobs).jobs@.drop_last() == old(jobs).jobs@
                    &&& self.rebuild_job(final(jobs).jobs@.last(), destination@, segment_size_blks)
                    &&& last_is_only_job(final(jobs).jobs@, destination@)
                },
                Err(error) => {
                    &&& *final(jobs) == *old(jobs)
                    &&& self.rebuild_refusal(old(jobs).jobs@, destination@, segment_size_blks)
                        == Some(error)
                },
            },
    {
        proof {
            lemma_position(self.children@, destination@, 0);
            lemma_job_position(jobs.jobs@, destination@, 0);
        }
        let source = match self.rebuild_source(destination) {
            Some(at) => at,
            None => {
                return Err(RebuildError::NoSource);
            },
        };
        let out_of_sync = match self.find_child(destination) {
            Some(at) => match self.children[at].state {
                ChildState::Faulted(Reason::OutOfSync) => true,
                _ => false,
            },
            None => false,
        };
        if !out_of_sync {
            return Err(RebuildError::NoDestination);
        }
        if self.num_blocks > u64::MAX - self.data_ent_offset {
            return Err(RebuildError::InvalidParameters);
        }
        let mut job = match RebuildJob::new(
            self.name.as_str(),
            self.children[source].name.as_str(),
            destination,
            self.data_ent_offset,
            self.data_ent_offset + self.num_blocks,
            segment_size_blks,
        ) {
            Ok(job) => job,
            Err(error) => {
                return Err(error);
            },
        };
        if jobs.find(destination).is_some() {
            return Err(RebuildError::JobAlreadyExists);
        }
        match job.exec_op(RebuildOperation::Start) {
            Ok(()) => {},
            Err(error) => {
                return Err(error);
            },
        }
        let ghost before = jobs.jobs@;
        match jobs.store(job) {
            Ok(()) => {
                assert(jobs.jobs@.drop_last() =~= before);
                assert forall|i: int| 0 <= i < jobs.jobs@.len() - 1 implies (
                #[trigger] jobs.jobs@[i]).destination@ != destination@ by {
                    assert(jobs.jobs@[i] == before[i]);
                }
                Ok(())
            },
            Err(error) => Err(error),
        }
    }

    /// Whether the nexus `after` and the jobs `jobs_after` are what the
    /// start of the rebuild of the child `uri` that was added makes of the
    /// nexus `added` and the jobs `jobs_before`. Without a rebuild all is
    /// as it was. A rebuild that starts adds its job, and the child stays
    /// as it is. One that does not start faults the child for that reason.
    pub open spec fn rebuild_begun(
        added: Nexus,
        after: Nexus,
        jobs_before: Seq<RebuildJob>,
        jobs_after: Seq<RebuildJob>,
        uri: Seq<char>,
        norebuild: bool,
        segment_size_blks: u64,
    ) -> bool {
        if norebuild {
            after == added && jobs_after == jobs_before
        } else if added.rebuild_refusal(jobs_before, uri, segment_size_blks) is None {
            &&& after == added
            &&& jobs_after.len() == jobs_before.len() + 1
            &&& jobs_after.drop_last() == jobs_before
            &&& added.rebuild_job(jobs_after.last(), uri, segment_size_blks)
            &&& last_is_only_job(jobs_after, uri)
        } else {
            &&& jobs_after == jobs_before
            &&& after.children@ == with_state(
                added.children@,
                position(added.children@, uri, 0),
                ChildState::Faulted(Reason::RebuildFailed),
            )
            &&& after == (Nexus { children: after.children, ..added })
        }
    }

    /// add a new child to an existing nexus. note that the child is added and
    /// opened but not taking part of any new IO's that are submitted to the
    /// nexus.
    ///
    /// The child may require a rebuild first, so the nexus will
    /// transition to degraded mode when the addition has been successful.
    /// The rebuild flag dictates wether we attempt to start the rebuild or not
    /// If the rebuild fails to start the child remains degraded until such
    /// time the rebuild is retried and complete
    pub fn add_child_and_rebuild(
        &mut self,
        jobs: &mut RebuildJobs,
        uri: &str,
        created: &str,
        bdev: Option<Bdev>,
        norebuild: bool,
        segment_size_blks: u64,
    ) -> (r: Result<NexusStatus, NexusError>)
        requires
            old(self).wf(),
            old(self).children@.len() < u32::MAX,
            bdev matches Some(device) ==> device.block_len > 0,
            old(jobs).wf(),
        ensures
            final(self).wf(),
            final(jobs).wf(),
            match r {
                Ok(status) => exists|added: Nexus|
                    {
                        &&& #[trigger] Self::child_added(
                            *old(self),
                            added,
                            uri@,
                            created@,
                            bdev,
                            Ok(status),
                        )
                        &&& Self::rebuild_begun(
                            added,
                            *final(self),
                            old(jobs).jobs@,
                            final(jobs).jobs@,
                            uri@,
                            norebuild,
                            segment_size_blks,
                        )
                    },
                Err(error) => {
                    &&& Self::child_added(
                        *old(self),
                        *final(self),
                        uri@,
                        created@,
                        bdev,
                        Err(error),
                    )
                    &&& *final(jobs) == *old(jobs)
                },
            },
    {
        let (status, rebuild) = match self.add_child(uri, created, bdev, norebuild) {
            Ok(added) => added,
            Err(error) => {
                return Err(error);
            },
        };
        let ghost added = *self;
        if rebuild {
            match self.start_rebuild(jobs, uri, segment_size_blks) {
                Ok(()) => {},
                Err(_) => {
                    self.rebuild_failed_to_start(uri);
                },
            }
        }
        assert(Self::child_added(*old(self), added, uri@, created@, bdev, Ok(status)));
        Ok(status)
    }
}

/// A child that is taken among the children is found under its name.
pub proof fn lemma_with_child(children: Seq<NexusChild>, child: NexusChild)
    ensures
        ({
            let after = Nexus::with_child(children, child);
            let at = position(after, child.name@, 0);
            at < after.len() && after[at] == child
        }),
{
    let after = Nexus::with_child(children, child);
    let place = position(children, child.name@, 0);
    lemma_position(children, child.name@, 0);
    lemma_position(after, child.name@, 0);
    let at = position(after, child.name@, 0);
    assert(after[place] == child);
    if at < place {
        assert(after[at] == children[at]);
    }
}

/// A child that is added to a nexus with a rebuild is rebuilt by one job
/// and no more, which runs and copies from an open child other than the
/// one added, and the child stays out of sync for the time being. Where
/// the rebuild could not start there is no such job, and the child is
/// faulted because its rebuild failed.
pub proof fn lemma_added_child_is_rebuilt(
    before: Nexus,
    added: Nexus,
    after: Nexus,
    jobs_before: Seq<RebuildJob>,
    jobs_after: Seq<RebuildJob>,
    uri: Seq<char>,
    created: Seq<char>,
    bdev: Option<Bdev>,
    status: NexusStatus,
    segment_size_blks: u64,
)
    requires
        Nexus::child_added(before, added, uri, created, bdev, Ok(status)),
        Nexus::rebuild_begun(added, after, jobs_before, jobs_after, uri, false, segment_size_blks),
    ensures
        ({
            let at = position(after.children@, uri, 0);
            &&& at < after.children@.len()
            &&& if jobs_after.len() > jobs_before.len() {
                &&& after.children@[at].state == ChildState::Faulted(Reason::OutOfSync)
                &&& last_is_only_job(jobs_after, uri)
                &&& jobs_after.last().current == RebuildState::Running
                &&& exists|from: int|
                    0 <= from < after.children@.len() && from != at && (
                    #[trigger] after.children@[from]).is_open() && jobs_after.last().source@
                        == after.children@[from].name@
            } else {
                &&& jobs_after == jobs_before
                &&& after.children@[at].state == ChildState::Faulted(Reason::RebuildFailed)
            }
        }),
{
    let child = choose|child: NexusChild|
        {
            &&& child.name@ == uri
            &&& child.parent@ == before.name@
            &&& child.bdev == bdev
            &&& child.state == ChildState::Faulted(Reason::OutOfSync)
            &&& #[trigger] Nexus::with_child(before.children@, child) == added.children@
        };
    lemma_with_child(before.children@, child);
    let place = position(added.children@, uri, 0);
    if added.rebuild_refusal(jobs_before, uri, segment_size_blks) is None {
        lemma_source_position(added.children@, uri, 0);
        let from = source_position(added.children@, uri, 0);
        assert(after.children@[from].is_open());
    } else {
        let faulted = with_state(
            added.children@,
            place,
            ChildState::Faulted(Reason::RebuildFailed),
        );
        lemma_position(added.children@, uri, 0);
        lemma_position(faulted, uri, 0);
        let at = position(faulted, uri, 0);
        assert(faulted[place].name@ == uri);
        if at < place {
            assert(faulted[at] == added.children@[at]);
        }
    }
}

} // verus!
