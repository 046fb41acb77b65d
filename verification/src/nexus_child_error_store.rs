//! The error store of a child: a ring of the I/O failures seen of late,
//! and the policies that decide from it whether the child is faulted.
use crate::block_device::IoType;
use crate::nexus_child::Reason;
use vstd::prelude::*;

verus! {

/// What is done when a policy finds its threshold crossed.
#[derive(Debug, Copy, Clone, PartialEq, Eq, Structural)]
pub enum ActionType {
    Ignore,
    Fault,
}

/// How an I/O failed.
#[derive(Debug, Copy, Clone, PartialEq, Eq, Structural)]
pub enum IoErrorKind {
    /// The device reported a failure.
    Failure,
    /// The I/O took longer than is allowed.
    Timeout,
}

/// What is configured for the error stores.
#[derive(Debug, Copy, Clone, PartialEq, Eq, Structural)]
pub struct ErrStoreOpts {
    /// ring buffer size
    pub err_store_size: usize,
    /// enable or disable the error store
    pub enable_err_store: bool,
    /// whether to fault the child due to the total number of failed IOs
    pub action: ActionType,
    /// the maximum number of errors in the retention window
    pub max_errors: u32,
    /// errors older than this are ignored, in nanoseconds
    pub retention_ns: u64,
    /// whether to fault the child due to I/O that timed out
    pub timeout_action: ActionType,
    /// the time after which an I/O has timed out, in seconds; 0 for never
    pub timeout_sec: u64,
}

/// One failed I/O.
#[derive(Debug, Copy, Clone, PartialEq, Eq, Structural)]
pub struct NexusChildErrorRecord {
    pub io_offset: u64,
    pub io_num_blocks: u64,
    /// When the I/O failed, in nanoseconds on a clock that does not go
    /// back.
    pub timestamp: u64,
    pub io_error: IoErrorKind,
    pub io_op: IoType,
}

/// A ring of records: once it is full, each new record takes the place
/// of the oldest.
#[derive(Debug, PartialEq, Eq)]
pub struct NexusErrStore {
    pub records: Vec<NexusChildErrorRecord>,
    pub capacity: usize,
    /// Where the next record goes once the ring is full: the place of the
    /// oldest record.
    pub next_record_index: usize,
}

/// Whether a record counts for a query: it is of the kind asked for, and
/// no older than `retention_ns` at the time `now`.
pub open spec fn counts(
    record: NexusChildErrorRecord,
    kind: IoErrorKind,
    now: u64,
    retention_ns: u64,
) -> bool {
    record.io_error == kind && now - record.timestamp <= retention_ns
}

/// The number of records among the first `upto` that count.
pub open spec fn count_of(
    records: Seq<NexusChildErrorRecord>,
    kind: IoErrorKind,
    now: u64,
    retention_ns: u64,
    upto: int,
) -> nat
    decreases upto,
{
    if upto <= 0 {
        0
    } else {
        count_of(records, kind, now, retention_ns, upto - 1) + if counts(
            records[upto - 1],
            kind,
            now,
            retention_ns,
        ) {
            1nat
        } else {
            0nat
        }
    }
}

impl NexusErrStore {
    /// The ring holds no more records than it has room for, and the next
    /// record goes to a place within it.
    pub open spec fn wf(self) -> bool {
        &&& self.records@.len() <= self.capacity
        &&& self.next_record_index <= self.records@.len()
        &&& self.records@.len() < self.capacity ==> self.next_record_index == self.records@.len()
        &&& self.records@.len() == self.capacity && self.capacity > 0 ==> self.next_record_index
            < self.capacity
    }

    /// Whether the ring is in order, to be asked of a store that was put
    /// together by hand.
    pub fn is_wf(&self) -> (r: bool)
        ensures
            r == self.wf(),
    {
        let len = self.records.len();
        len <= self.capacity && self.next_record_index <= len && (len >= self.capacity
            || self.next_record_index == len) && (len != self.capacity || self.capacity == 0
            || self.next_record_index < self.capacity)
    }

    /// The records after `record` was added: behind the others while there
    /// is room, else in the place of the oldest. A ring without room keeps
    /// nothing.
    pub open spec fn added(self, record: NexusChildErrorRecord) -> Seq<NexusChildErrorRecord> {
        if self.capacity == 0 {
            self.records@
        } else if self.records@.len() < self.capacity {
            self.records@.push(record)
        } else {
            self.records@.update(self.next_record_index as int, record)
        }
    }

    /// The number of records of a kind that are no older than
    /// `retention_ns` at the time `now`.
    pub open spec fn count(self, kind: IoErrorKind, now: u64, retention_ns: u64) -> nat {
        count_of(self.records@, kind, now, retention_ns, self.records@.len() as int)
    }

    /// An empty ring with room for `capacity` records.
    pub fn new(capacity: usize) -> (store: NexusErrStore)
        ensures
            store.wf(),
            store.capacity == capacity,
            store.records@.len() == 0,
    {
        NexusErrStore { records: Vec::new(), capacity, next_record_index: 0 }
    }

    /// Adds the record of a failed I/O.
    pub fn add_record(
        &mut self,
        io_op: IoType,
        io_error: IoErrorKind,
        io_offset: u64,
        io_num_blocks: u64,
        timestamp: u64,
    )
        requires
            old(self).wf(),
        ensures
            final(self).wf(),
            final(self).capacity == old(self).capacity,
            final(self).records@ == old(self).added(
                NexusChildErrorRecord { io_offset, io_num_blocks, timestamp, io_error, io_op },
            ),
            final(self).next_record_index == if old(self).capacity == 0 {
                0int
            } else if old(self).records@.len() + 1 < old(self).capacity {
                old(self).records@.len() as int + 1
            } else if old(self).next_record_index + 1 >= old(self).capacity {
                0int
            } else {
                old(self).next_record_index + 1
            },
    {
        let record = NexusChildErrorRecord { io_offset, io_num_blocks, timestamp, io_error, io_op };
        if self.capacity == 0 {
            return ;
        }
        if self.records.len() < self.capacity {
            self.records.push(record);
            self.next_record_index = if self.records.len() < self.capacity {
                self.records.len()
            } else {
                0
            };
        } else {
            self.records[self.next_record_index] = record;
            self.next_record_index = if self.next_record_index + 1 >= self.capacity {
                0
            } else {
                self.next_record_index + 1
            };
        }
    }

    /// Counts the records of a kind that are no older than `retention_ns`
    /// at the time `now`.
    pub fn query(&self, kind: IoErrorKind, now: u64, retention_ns: u64) -> (count: usize)
        ensures
            count == self.count(kind, now, retention_ns),
    {
        let mut count: usize = 0;
        let mut i: usize = 0;
        while i < self.records.len()
            invariant
                i <= self.records@.len(),
                count == count_of(self.records@, kind, now, retention_ns, i as int),
                count <= i,
            decreases self.records@.len() - i,
        {
            let record = &self.records[i];
            let same = match (record.io_error, kind) {
                (IoErrorKind::Failure, IoErrorKind::Failure) => true,
                (IoErrorKind::Timeout, IoErrorKind::Timeout) => true,
                _ => false,
            };
            if same && (record.timestamp >= now || now - record.timestamp <= retention_ns) {
                count = count + 1;
            }
            i = i + 1;
        }
        count
    }
}

impl Clone for NexusErrStore {
    fn clone(&self) -> (copy: NexusErrStore)
        ensures
            copy.records@ == self.records@,
            copy.capacity == self.capacity,
            copy.next_record_index == self.next_record_index,
    {
        NexusErrStore {
            records: self.records.clone(),
            capacity: self.capacity,
            next_record_index: self.next_record_index,
        }
    }
}

impl ErrStoreOpts {
    /// Whether an I/O that took `latency_ns` nanoseconds has timed out.
    pub open spec fn timed_out_spec(self, latency_ns: u64) -> bool {
        self.timeout_sec > 0 && latency_ns >= self.timeout_sec * 1_000_000_000
    }

    /// What the policies make of a store at the time `now`.
    ///
    /// The policy for failures: more failures than `max_errors` within the
    /// retention window call for `action`. The policy for timeouts: any
    /// timeout within the retention window calls for `timeout_action`. A
    /// child is faulted if one of the two calls for it; where both do, the
    /// failures give the reason.
    pub open spec fn verdict(self, store: NexusErrStore, now: u64) -> Option<Reason> {
        if !self.enable_err_store {
            None
        } else if self.action == ActionType::Fault && store.count(
            IoErrorKind::Failure,
            now,
            self.retention_ns,
        ) > self.max_errors {
            Some(Reason::IoError)
        } else if self.timeout_action == ActionType::Fault && store.count(
            IoErrorKind::Timeout,
            now,
            self.retention_ns,
        ) > 0 {
            Some(Reason::Timeout)
        } else {
            None
        }
    }

    /// Whether an I/O that took `latency_ns` nanoseconds has timed out:
    /// it took as long as is allowed, or longer.
    pub fn timed_out(&self, latency_ns: u64) -> (r: bool)
        ensures
            r == self.timed_out_spec(latency_ns),
    {
        self.timeout_sec > 0 && latency_ns as u128 >= (self.timeout_sec as u128) * 1_000_000_000
    }

    /// Applies the policies to a store: the reason to fault the child, if
    /// there is one.
    pub fn assess(&self, store: &NexusErrStore, now: u64) -> (r: Option<Reason>)
        ensures
            r == self.verdict(*store, now),
    {
        if !self.enable_err_store {
            return None;
        }
        if let ActionType::Fault = self.action {
            if store.query(IoErrorKind::Failure, now, self.retention_ns) > self.max_errors as usize {
                return Some(Reason::IoError);
            }
        }
        if let ActionType::Fault = self.timeout_action {
            if store.query(IoErrorKind::Timeout, now, self.retention_ns) > 0 {
                return Some(Reason::Timeout);
            }
        }
        None
    }
}

} // verus!
