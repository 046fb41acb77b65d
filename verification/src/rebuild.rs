//! The rebuild engine: jobs that copy a healthy child to a child that is
//! out of sync, segment by segment, and the registry that holds them.
use crate::nexus_bdev::{position, Nexus};
use crate::nexus_bdev_children::{lemma_position, with_state};
use crate::nexus_child::{ChildState, Reason};
use vstd::prelude::*;

verus! {

/// The states of a rebuild job.
#[derive(Debug, Copy, Clone, PartialEq, Eq, Structural)]
pub enum RebuildState {
    /// Init when the job is newly created
    Init,
    /// Running when the job is rebuilding
    Running,
    /// Stopped when the job is halted as requested through stop
    /// and pending its removal
    Stopped,
    /// Paused when the job is paused as requested through pause
    Paused,
    /// Failed when an IO (R/W) operation was failed
    /// there are no retries as it currently stands
    Failed,
    /// Completed when the rebuild was successfully completed
    Completed,
}

/// What a rebuild job can be asked for.
#[derive(Debug, Copy, Clone, PartialEq, Eq, Structural)]
pub enum RebuildOperation {
    /// Client Operations
    ///
    /// Starts the job for the first time
    Start,
    /// Stops the job
    Stop,
    /// Pauses the job
    Pause,
    /// Resumes the previously paused job
    Resume,
    /// Internal Operations
    ///
    /// Fails the job when a copy has failed
    Fail,
    /// Completes the job when all is copied
    Complete,
}

/// What can go wrong with rebuild jobs.
#[derive(Debug, Copy, Clone, PartialEq, Eq, Structural)]
pub enum RebuildError {
    /// The job cannot do the operation in its state.
    OpError { operation: RebuildOperation, state: RebuildState },
    /// A change of state is under way already.
    StatePending { operation: RebuildOperation },
    /// The range of the job is empty, or no segment has a size.
    InvalidParameters,
    /// The destination has a job already.
    JobAlreadyExists,
    /// No job has this destination.
    JobNotFound,
    /// The nexus has no open child but the destination to copy from.
    NoSource,
    /// The destination is no child of the nexus that is out of sync.
    NoDestination,
}

/// A rebuild job copies the blocks from `start` to `end` of the source
/// to the destination.
#[derive(Debug, PartialEq, Eq)]
pub struct RebuildJob {
    /// name of the nexus associated with the rebuild job
    pub nexus: String,
    /// source URI of the healthy child to rebuild from
    pub source: String,
    /// target URI of the out of sync child in need of a rebuild
    pub destination: String,
    pub start: u64,
    pub end: u64,
    /// The progress cursor: all blocks before it were handed out for
    /// copying.
    pub next: u64,
    /// The number of blocks that are copied at once.
    pub segment_size_blks: u64,
    /// The number of copies that are under way.
    pub outstanding: u32,
    pub current: RebuildState,
    /// The state that the job takes as soon as no copy is under way.
    pub pending: Option<RebuildState>,
}

/// The registry of the rebuild jobs, by destination.
#[derive(Debug, PartialEq, Eq)]
pub struct RebuildJobs {
    pub jobs: Vec<RebuildJob>,
}

/// The state that an operation leads to from a state, if the operation
/// can be done in it.
pub open spec fn transition(state: RebuildState, operation: RebuildOperation) -> Option<
    RebuildState,
> {
    match (operation, state) {
        (RebuildOperation::Start, RebuildState::Init) => Some(RebuildState::Running),
        (RebuildOperation::Stop, RebuildState::Init) => Some(RebuildState::Stopped),
        (RebuildOperation::Stop, RebuildState::Running) => Some(RebuildState::Stopped),
        (RebuildOperation::Stop, RebuildState::Paused) => Some(RebuildState::Stopped),
        (RebuildOperation::Pause, RebuildState::Running) => Some(RebuildState::Paused),
        (RebuildOperation::Resume, RebuildState::Paused) => Some(RebuildState::Running),
        (RebuildOperation::Fail, RebuildState::Running) => Some(RebuildState::Failed),
        (RebuildOperation::Fail, RebuildState::Paused) => Some(RebuildState::Failed),
        (RebuildOperation::Complete, RebuildState::Running) => Some(RebuildState::Completed),
        _ => None,
    }
}

/// The index of the first job at or behind `from` with the destination
/// given; the number of jobs if there is none.
pub open spec fn job_position(jobs: Seq<RebuildJob>, destination: Seq<char>, from: int) -> int
    decreases jobs.len() - from,
{
    if from >= jobs.len() {
        jobs.len() as int
    } else if jobs[from].destination@ == destination {
        from
    } else {
        job_position(jobs, destination, from + 1)
    }
}

/// The indices of the jobs among the first `upto` that have the source
/// given, in order.
pub open spec fn with_source(jobs: Seq<RebuildJob>, source: Seq<char>, upto: int) -> Seq<usize>
    decreases upto,
{
    if upto <= 0 {
        Seq::empty()
    } else if jobs[upto - 1].source@ == source {
        with_source(jobs, source, upto - 1).push((upto - 1) as usize)
    } else {
        with_source(jobs, source, upto - 1)
    }
}

/// The first job with the destination given is at the position found.
pub proof fn lemma_job_position(jobs: Seq<RebuildJob>, destination: Seq<char>, from: int)
    requires
        0 <= from <= jobs.len(),
    ensures
        from <= job_position(jobs, destination, from) <= jobs.len(),
        job_position(jobs, destination, from) < jobs.len() ==> jobs[job_position(
            jobs,
            destination,
            from,
        )].destination@ == destination,
        forall|i: int|
            from <= i < job_position(jobs, destination, from) ==> (#[trigger] jobs[i]).destination@
                != destination,
    decreases jobs.len() - from,
{
    if from < jobs.len() && jobs[from].destination@ != destination {
        lemma_job_position(jobs, destination, from + 1);
    }
}

impl RebuildJob {
    /// The cursor lies within the range, segments have a size, and only a
    /// running job has copies under way.
    pub open spec fn wf(self) -> bool {
        &&& self.start <= self.next <= self.end
        &&& self.segment_size_blks > 0
        &&& self.current != RebuildState::Running ==> self.outstanding == 0
    }

    /// Whether the job is in order, to be asked of a job that was put
    /// together by hand.
    pub fn is_wf(&self) -> (r: bool)
        ensures
            r == self.wf(),
    {
        let idle = match self.current {
            RebuildState::Running => true,
            _ => self.outstanding == 0,
        };
        self.start <= self.next && self.next <= self.end && self.segment_size_blks > 0 && idle
    }

    /// Whether the job has come to its end.
    pub open spec fn is_final(self) -> bool {
        self.current == RebuildState::Stopped || self.current == RebuildState::Failed
            || self.current == RebuildState::Completed
    }

    /// A new job, in the state `Init`.
    pub fn new(
        nexus: &str,
        source: &str,
        destination: &str,
        start: u64,
        end: u64,
        segment_size_blks: u64,
    ) -> (r: Result<RebuildJob, RebuildError>)
        ensures
            match r {
                Ok(job) => {
                    &&& start < end
                    &&& segment_size_blks > 0
                    &&& job.wf()
                    &&& job.nexus@ == nexus@
                    &&& job.source@ == source@
                    &&& job.destination@ == destination@
                    &&& job.start == start
                    &&& job.end == end
                    &&& job.next == start
                    &&& job.segment_size_blks == segment_size_blks
                    &&& job.outstanding == 0
                    &&& job.current == RebuildState::Init
                    &&& job.pending is None
                },
                Err(error) => error == RebuildError::InvalidParameters && (start >= end
                    || segment_size_blks == 0),
            },
    {
        if start >= end || segment_size_blks == 0 {
            return Err(RebuildError::InvalidParameters);
        }
        Ok(
            RebuildJob {
                nexus: nexus.to_owned(),
                source: source.to_owned(),
                destination: destination.to_owned(),
                start,
                end,
                next: start,
                segment_size_blks,
                outstanding: 0,
                current: RebuildState::Init,
                pending: None,
            },
        )
    }

    /// The state that `operation` leads to from `state`.
    pub fn target(state: RebuildState, operation: RebuildOperation) -> (r: Option<RebuildState>)
        ensures
            r == transition(state, operation),
    {
        match (operation, state) {
            (RebuildOperation::Start, RebuildState::Init) => Some(RebuildState::Running),
            (RebuildOperation::Stop, RebuildState::Init) => Some(RebuildState::Stopped),
            (RebuildOperation::Stop, RebuildState::Running) => Some(RebuildState::Stopped),
            (RebuildOperation::Stop, RebuildState::Paused) => Some(RebuildState::Stopped),
            (RebuildOperation::Pause, RebuildState::Running) => Some(RebuildState::Paused),
            (RebuildOperation::Resume, RebuildState::Paused) => Some(RebuildState::Running),
            (RebuildOperation::Fail, RebuildState::Running) => Some(RebuildState::Failed),
            (RebuildOperation::Fail, RebuildState::Paused) => Some(RebuildState::Failed),
            (RebuildOperation::Complete, RebuildState::Running) => Some(RebuildState::Completed),
            _ => None,
        }
    }

    /// The job with the change of state that is pending carried out, if
    /// no copy is under way.
    pub open spec fn reconciled(self) -> RebuildJob {
        match self.pending {
            Some(state) if self.outstanding == 0 => RebuildJob {
                current: state,
                pending: None,
                ..self
            },
            _ => self,
        }
    }

    /// Carries out the change of state that is pending, if no copy is
    /// under way: a job does not leave the state `Running` while it has
    /// I/O outstanding.
    pub fn reconcile(&mut self)
        requires
            old(self).wf(),
        ensures
            *final(self) == old(self).reconciled(),
            final(self).wf(),
    {
        if self.outstanding == 0 {
            if let Some(state) = self.pending {
                self.current = state;
                self.pending = None;
            }
        }
    }

    /// Asks the job for an operation. An operation that the job cannot do
    /// in its state is refused, and so is any operation while a change of
    /// state is pending, but for a stop or a failure, which take the
    /// place of what is pending. The change of state is carried out at
    /// once if no copy is under way, else when the last copy has ended.
    pub fn exec_op(&mut self, operation: RebuildOperation) -> (r: Result<(), RebuildError>)
        requires
            old(self).wf(),
        ensures
            final(self).wf(),
            match r {
                Ok(()) => {
                    &&& transition(old(self).current, operation) matches Some(state)
                    &&& *final(self) == (RebuildJob {
                        pending: Some(state),
                        ..*old(self)
                    }).reconciled()
                },
                Err(error) => {
                    &&& *final(self) == *old(self)
                    &&& match transition(old(self).current, operation) {
                        None => error == (RebuildError::OpError {
                            operation,
                            state: old(self).current,
                        }),
                        Some(_) => error == (RebuildError::StatePending { operation })
                            && old(self).pending is Some && operation != RebuildOperation::Stop
                            && operation != RebuildOperation::Fail,
                    }
                },
            },
            transition(old(self).current, operation) is Some && (old(self).pending is None
                || operation == RebuildOperation::Stop || operation == RebuildOperation::Fail)
                ==> r is Ok,
    {
        let state = match Self::target(self.current, operation) {
            Some(state) => state,
            None => {
                return Err(RebuildError::OpError { operation, state: self.current });
            },
        };
        if self.pending.is_some() {
            match operation {
                RebuildOperation::Stop => {},
                RebuildOperation::Fail => {},
                _ => {
                    return Err(RebuildError::StatePending { operation });
                },
            }
        }
        self.pending = Some(state);
        self.reconcile();
        Ok(())
    }

    /// The next segment to copy, by its first block and its number of
    /// blocks: what lies behind the cursor, up to the size of a segment.
    /// The cursor moves behind the segment. Only a job that is running,
    /// with no change of state pending, hands out segments.
    pub fn next_segment(&mut self) -> (r: Option<(u64, u64)>)
        requires
            old(self).wf(),
            old(self).outstanding < u32::MAX,
        ensures
            final(self).wf(),
            match r {
                Some((block, blocks)) => {
                    &&& old(self).current == RebuildState::Running
                    &&& old(self).pending is None
                    &&& old(self).next < old(self).end
                    &&& block == old(self).next
                    &&& blocks == if old(self).end - old(self).next < old(self).segment_size_blks {
                        old(self).end - old(self).next
                    } else {
                        old(self).segment_size_blks as int
                    }
                    &&& *final(self) == (RebuildJob {
                        next: (block + blocks) as u64,
                        outstanding: (old(self).outstanding + 1) as u32,
                        ..*old(self)
                    })
                },
                None => {
                    &&& *final(self) == *old(self)
                    &&& old(self).current != RebuildState::Running || old(self).pending is Some
                        || old(self).next == old(self).end
                },
            },
    {
        match self.current {
            RebuildState::Running => {},
            _ => {
                return None;
            },
        }
        if self.pending.is_some() || self.next >= self.end {
            return None;
        }
        let block = self.next;
        let left = self.end - self.next;
        let blocks = if left < self.segment_size_blks {
            left
        } else {
            self.segment_size_blks
        };
        self.next = self.next + blocks;
        self.outstanding = self.outstanding + 1;
        Some((block, blocks))
    }

    /// Takes in that the copy of a segment has ended. A copy that failed
    /// fails the job. With the last copy of the last segment the job is
    /// complete. A change of state that is pending is carried out when no
    /// copy is under way any more.
    pub fn segment_done(&mut self, success: bool)
        requires
            old(self).wf(),
            old(self).outstanding > 0,
        ensures
            final(self).wf(),
            *final(self) == (RebuildJob {
                outstanding: (old(self).outstanding - 1) as u32,
                pending: if !success {
                    Some(RebuildState::Failed)
                } else if old(self).pending is None && old(self).next == old(self).end && old(self).outstanding == 1 {
                    Some(RebuildState::Completed)
                } else {
                    old(self).pending
                },
                ..*old(self)
            }).reconciled(),
    {
        self.outstanding = self.outstanding - 1;
        if !success {
            self.pending = Some(RebuildState::Failed);
        } else if self.pending.is_none() && self.next == self.end && self.outstanding == 0 {
            self.pending = Some(RebuildState::Completed);
        }
        self.reconcile();
    }
}

impl RebuildJobs {
    /// No two jobs have the same destination, and every job is
    /// well-formed.
    pub open spec fn wf(self) -> bool {
        &&& forall|i: int| 0 <= i < self.jobs@.len() ==> (#[trigger] self.jobs@[i]).wf()
        &&& forall|i: int, j: int|
            0 <= i < j < self.jobs@.len() ==> (#[trigger] self.jobs@[i]).destination@ != (
            #[trigger] self.jobs@[j]).destination@
    }

    /// Whether the registry is in order, to be asked of a registry that
    /// was put together by hand: each job is in order, and no two have the
    /// same destination.
    pub fn is_wf(&self) -> (r: bool)
        ensures
            r == self.wf(),
    {
        let mut i: usize = 0;
        while i < self.jobs.len()
            invariant
                i <= self.jobs@.len(),
                forall|k: int| 0 <= k < i ==> (#[trigger] self.jobs@[k]).wf(),
                forall|a: int, b: int|
                    0 <= a < b < i ==> (#[trigger] self.jobs@[a]).destination@ != (
                    #[trigger] self.jobs@[b]).destination@,
            decreases self.jobs@.len() - i,
        {
            if !self.jobs[i].is_wf() {
                return false;
            }
            let mut j: usize = 0;
            while j < i
                invariant
                    j <= i < self.jobs@.len(),
                    forall|a: int|
                        0 <= a < j ==> (#[trigger] self.jobs@[a]).destination@
                            != self.jobs@[i as int].destination@,
                decreases i - j,
            {
                if self.jobs[j].destination == self.jobs[i].destination {
                    assert(self.jobs@[j as int].destination@ == self.jobs@[i as int].destination@);
                    return false;
                }
                j = j + 1;
            }
            i = i + 1;
        }
        true
    }

    /// Whether a job has the destination given.
    pub open spec fn has(self, destination: Seq<char>) -> bool {
        job_position(self.jobs@, destination, 0) < self.jobs@.len()
    }

    /// A registry without jobs.
    pub fn new() -> (jobs: RebuildJobs)
        ensures
            jobs.wf(),
            jobs.jobs@.len() == 0,
    {
        RebuildJobs { jobs: Vec::new() }
    }

    /// The index of the job with the destination given.
    pub fn find(&self, destination: &str) -> (r: Option<usize>)
        ensures
            match r {
                Some(at) => at < self.jobs@.len() && job_position(self.jobs@, destination@, 0)
                    == at && self.jobs@[at as int].destination@ == destination@,
                None => !self.has(destination@),
            },
    {
        let wanted = destination.to_owned();
        let mut i: usize = 0;
        while i < self.jobs.len()
            invariant
                i <= self.jobs@.len(),
                wanted@ == destination@,
                job_position(self.jobs@, destination@, 0) == job_position(
                    self.jobs@,
                    destination@,
                    i as int,
                ),
            decreases self.jobs@.len() - i,
        {
            if self.jobs[i].destination == wanted {
                return Some(i);
            }
            i = i + 1;
        }
        None
    }

    /// Lookup a rebuild job by its destination uri
    pub fn lookup(&self, destination: &str) -> (r: Result<&RebuildJob, RebuildError>)
        ensures
            match r {
                Ok(job) => self.has(destination@) && *job == self.jobs@[job_position(
                    self.jobs@,
                    destination@,
                    0,
                )],
                Err(error) => !self.has(destination@) && error == RebuildError::JobNotFound,
            },
    {
        match self.find(destination) {
            Some(at) => Ok(&self.jobs[at]),
            None => Err(RebuildError::JobNotFound),
        }
    }

    /// Lookup all rebuilds jobs with name as its source: the indices of
    /// the jobs, in order.
    pub fn lookup_src(&self, source: &str) -> (r: Vec<usize>)
        ensures
            r@ == with_source(self.jobs@, source@, self.jobs@.len() as int),
    {
        let wanted = source.to_owned();
        let mut found: Vec<usize> = Vec::new();
        let mut i: usize = 0;
        while i < self.jobs.len()
            invariant
                i <= self.jobs@.len(),
                wanted@ == source@,
                found@ == with_source(self.jobs@, source@, i as int),
            decreases self.jobs@.len() - i,
        {
            if self.jobs[i].source == wanted {
                found.push(i);
            }
            i = i + 1;
        }
        found
    }

    /// Stores a rebuild job in the registry. A destination has one job at
    /// most.
    pub fn store(&mut self, job: RebuildJob) -> (r: Result<(), RebuildError>)
        requires
            old(self).wf(),
            job.wf(),
        ensures
            final(self).wf(),
            match r {
                Ok(()) => !old(self).has(job.destination@) && final(self).jobs@ == old(self).jobs@.push(job),
                Err(error) => old(self).has(job.destination@) && error
                    == RebuildError::JobAlreadyExists && *final(self) == *old(self),
            },
    {
        proof {
            lemma_job_position(self.jobs@, job.destination@, 0);
        }
        match self.find(job.destination.as_str()) {
            Some(_) => Err(RebuildError::JobAlreadyExists),
            None => {
                self.jobs.push(job);
                Ok(())
            },
        }
    }

    /// Lookup a rebuild job by its destination uri and remove it from
    /// the registry.
    pub fn remove(&mut self, destination: &str) -> (r: Result<RebuildJob, RebuildError>)
        requires
            old(self).wf(),
        ensures
            final(self).wf(),
            match r {
                Ok(job) => {
                    &&& old(self).has(destination@)
                    &&& job == old(self).jobs@[job_position(old(self).jobs@, destination@, 0)]
                    &&& final(self).jobs@ == old(self).jobs@.remove(
                        job_position(old(self).jobs@, destination@, 0),
                    )
                },
                Err(error) => !old(self).has(destination@) && error == RebuildError::JobNotFound
                    && *final(self) == *old(self),
            },
    {
        match self.find(destination) {
            Some(at) => Ok(self.jobs.remove(at)),
            None => Err(RebuildError::JobNotFound),
        }
    }

    /// Number of rebuild job instances
    pub fn count(&self) -> (count: usize)
        ensures
            count == self.jobs@.len(),
    {
        self.jobs.len()
    }
}

impl Nexus {
    /// Takes in that the rebuild of the child `destination` has come to
    /// an end. A rebuild that is complete brings a child that was out of
    /// sync back into the I/O path of the nexus. A rebuild that has failed
    /// faults the child for that reason. The result says whether the I/O
    /// channels of the nexus are to be reconfigured.
    pub fn on_rebuild_update(&mut self, destination: &str, state: RebuildState) -> (reconfigure:
        bool)
        requires
            old(self).wf(),
        ensures
            final(self).wf(),
            *final(self) == (Nexus { children: final(self).children, ..*old(self) }),
            final(self).open_children() >= old(self).open_children() - 1,
            ({
                let at = position(old(self).children@, destination@, 0);
                if at < old(self).children@.len() && state == RebuildState::Completed && old(self).children@[at].state == ChildState::Faulted(Reason::OutOfSync) && old(self).children@[at].bdev is Some {
                    reconfigure && final(self).children@ == with_state(
                        old(self).children@,
                        at,
                        ChildState::Open,
                    ) && final(self).open_children() == old(self).open_children() + 1
                } else if at < old(self).children@.len() && state == RebuildState::Failed {
                    !reconfigure && final(self).children@ == with_state(
                        old(self).children@,
                        at,
                        ChildState::Faulted(Reason::RebuildFailed),
                    )
                } else {
                    !reconfigure && final(self).children@ == old(self).children@
                }
            }),
    {
        proof {
            lemma_position(self.children@, destination@, 0);
        }
        let at = match self.find_child(destination) {
            Some(at) => at,
            None => {
                return false;
            },
        };
        match state {
            RebuildState::Completed => {
                let out_of_sync = match self.children[at].state {
                    ChildState::Faulted(Reason::OutOfSync) => true,
                    _ => false,
                };
                if out_of_sync && self.children[at].bdev.is_some() {
                    self.set_state(at, ChildState::Open);
                    true
                } else {
                    false
                }
            },
            RebuildState::Failed => {
                self.set_state(at, ChildState::Faulted(Reason::RebuildFailed));
                false
            },
            _ => false,
        }
    }
}

/// Whether a job has the child `name` as its source or as its
/// destination.
pub open spec fn touches(job: RebuildJob, name: Seq<char>) -> bool {
    job.source@ == name || job.destination@ == name
}

/// A job after it was asked to stop: a job that can stop has the stop
/// pending, or is stopped if no copy is under way; any other job is as it
/// was.
pub open spec fn stopped(job: RebuildJob) -> RebuildJob {
    match transition(job.current, RebuildOperation::Stop) {
        Some(state) => (RebuildJob { pending: Some(state), ..job }).reconciled(),
        None => job,
    }
}

/// The destinations among the first `upto` jobs that lose their source
/// with the child `name`, in the order of the jobs.
pub open spec fn orphaned(jobs: Seq<RebuildJob>, name: Seq<char>, upto: int) -> Seq<Seq<char>>
    decreases upto,
{
    if upto <= 0 {
        Seq::empty()
    } else if jobs[upto - 1].source@ == name && jobs[upto - 1].destination@ != name {
        orphaned(jobs, name, upto - 1).push(jobs[upto - 1].destination@)
    } else {
        orphaned(jobs, name, upto - 1)
    }
}

impl RebuildJobs {
    /// Stops the rebuild jobs that the child `name` takes part in, as
    /// source or as destination, before the child leaves the I/O path.
    /// Gives the destinations of the jobs that had the child as their
    /// source: their rebuilds are to be started again from another child.
    pub fn cancel_child_rebuild_jobs(&mut self, name: &str) -> (restart: Vec<String>)
        requires
            old(self).wf(),
        ensures
            final(self).wf(),
            final(self).jobs@.len() == old(self).jobs@.len(),
            forall|i: int|
                0 <= i < old(self).jobs@.len() ==> (#[trigger] final(self).jobs@[i]) == if touches(
                    old(self).jobs@[i],
                    name@,
                ) {
                    stopped(old(self).jobs@[i])
                } else {
                    old(self).jobs@[i]
                },
            restart@.map_values(|destination: String| destination@) == orphaned(
                old(self).jobs@,
                name@,
                old(self).jobs@.len() as int,
            ),
    {
        let wanted = name.to_owned();
        let ghost view = |destination: String| destination@;
        let mut restart: Vec<String> = Vec::new();
        let mut i: usize = 0;
        assert(restart@.map_values(view) =~= orphaned(self.jobs@, name@, 0));
        while i < self.jobs.len()
            invariant
                i <= self.jobs@.len(),
                self.wf(),
                wanted@ == name@,
                view == |destination: String| destination@,
                self.jobs@.len() == old(self).jobs@.len(),
                forall|k: int|
                    0 <= k < self.jobs@.len() ==> (#[trigger] self.jobs@[k]).destination@ == old(self).jobs@[k].destination@,
                forall|k: int|
                    0 <= k < i ==> (#[trigger] self.jobs@[k]) == if touches(
                        old(self).jobs@[k],
                        name@,
                    ) {
                        stopped(old(self).jobs@[k])
                    } else {
                        old(self).jobs@[k]
                    },
                forall|k: int|
                    i <= k < self.jobs@.len() ==> (#[trigger] self.jobs@[k]) == old(self).jobs@[k],
                restart@.map_values(view) == orphaned(old(self).jobs@, name@, i as int),
            decreases self.jobs@.len() - i,
        {
            let from = self.jobs[i].source == wanted;
            let to = self.jobs[i].destination == wanted;
            if from || to {
                let ghost before = self.jobs@;
                let mut job = self.jobs.remove(i);
                match job.exec_op(RebuildOperation::Stop) {
                    Ok(()) => {},
                    Err(_) => {},
                }
                if from && !to {
                    let ghost listed = restart@.map_values(view);
                    restart.push(job.destination.clone());
                    assert(restart@.map_values(view) =~= listed.push(job.destination@));
                }
                self.jobs.insert(i, job);
                assert(self.jobs@ =~= before.update(i as int, job));
            }
            i = i + 1;
        }
        restart
    }
}

} // verus!
