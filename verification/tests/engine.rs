use mayastor::block_device::IoType;
use mayastor::guid::GptGuid;
use mayastor::nexus_bdev::{Nexus, NexusState, NexusStatus};
use mayastor::nexus_bdev_children::NexusError;
use mayastor::nexus_bdev_rebuild::{RebuildOrders, RemovalOrders};
use mayastor::nexus_child::{Bdev, ChildState, NexusChild, Reason};
use mayastor::nexus_child_error_store::{
    ActionType, ErrStoreOpts, IoErrorKind, NexusChildErrorRecord, NexusErrStore,
};
use mayastor::nexus_io::{IoRetry, NexusIo, RetryDecision};
use mayastor::rebuild::{
    RebuildError, RebuildJob, RebuildJobs, RebuildOperation, RebuildState,
};

const MIB: u64 = 1024 * 1024;

fn nexus_of(names: &[&str]) -> Nexus {
    let mut n = Nexus {
        name: String::from("nexus0"),
        child_count: 0,
        children: vec![],
        block_len: 512,
        num_blocks: 0,
        required_alignment: 0,
        state: NexusState::Init,
        data_ent_offset: 0,
        size: 64 * MIB,
    };
    let children = names
        .iter()
        .map(|name| {
            NexusChild::new(
                String::from(*name),
                String::from("nexus0"),
                Some(Bdev {
                    name: String::from(&name[8..]),
                    block_len: 512,
                    num_blocks: 131072,
                    alignment: 9,
                    uuid: GptGuid::default(),
                }),
            )
        })
        .collect();
    n.register_children(children);
    n.try_open_children().unwrap();
    n.state = NexusState::Open;
    n
}

fn fault_opts() -> ErrStoreOpts {
    ErrStoreOpts {
        err_store_size: 256,
        enable_err_store: true,
        action: ActionType::Fault,
        max_errors: 4,
        retention_ns: 1_000_000_000,
        timeout_action: ActionType::Ignore,
        timeout_sec: 0,
    }
}

/// A device that fails the next `errors` reads handed to it.
struct ErrorDevice {
    name: &'static str,
    read_errors: u32,
    write_errors: u32,
}

/// One read through the nexus: it goes to the open child that is next in turn.
fn read(n: &mut Nexus, turn: &mut usize, bad: &mut ErrorDevice, opts: &ErrStoreOpts, now: u64) -> bool {
    let from = if *turn < n.children.len() { *turn } else { 0 };
    let at = n.read_target(from).or_else(|| n.read_target(0)).expect("no open child");
    *turn = at + 1;
    let name = n.children[at].name.clone();
    if name == bad.name && bad.read_errors > 0 {
        bad.read_errors -= 1;
        n.error_record_add(opts, &name, IoType::Read, IoErrorKind::Failure, 0, 1, now).unwrap();
        false
    } else {
        true
    }
}

/// One write through the nexus: it goes to all open children, and succeeds if all do.
fn write(n: &mut Nexus, bad: &mut ErrorDevice, opts: &ErrStoreOpts, now: u64) -> bool {
    let targets = n.write_targets();
    assert!(!targets.is_empty());
    let mut io = NexusIo::new(IoType::Write, 0, 1, targets.len() as u32);
    let mut done = None;
    let names: Vec<String> = targets.iter().map(|&at| n.children[at].name.clone()).collect();
    for name in names {
        assert_eq!(done, None);
        let ok = !(name == bad.name && bad.write_errors > 0);
        if !ok {
            bad.write_errors -= 1;
            n.error_record_add(opts, &name, IoType::Write, IoErrorKind::Failure, 0, 1, now).unwrap();
        }
        done = io.child_completed(ok);
    }
    done.unwrap()
}

#[test]
fn nexus_fault_child_test() {
    let opts = fault_opts();
    let mut n = nexus_of(&["bdev:///EE_error_device", "aio:////tmp/disk1.img"]);
    assert_eq!(n.status(), NexusStatus::Online);
    let mut bad = ErrorDevice { name: "bdev:///EE_error_device", read_errors: 10, write_errors: 10 };
    let mut turn = 0;
    let mut now = 1_000;

    let mut read_both = |n: &mut Nexus, bad: &mut ErrorDevice, succeed: bool| {
        now += 1_000_000;
        let res1 = read(n, &mut turn, bad, &opts, now);
        let res2 = read(n, &mut turn, bad, &opts, now);
        if succeed {
            assert!(res1 && res2); // both succeeded
        } else {
            assert_ne!(res1, res2); // one succeeded, one failed
        }
    };
    for _ in 0..3 {
        read_both(&mut n, &mut bad, false);
    }
    assert_eq!(n.status(), NexusStatus::Online);
    for _ in 0..2 {
        // the second iteration causes the error count to exceed the max no
        // of retry errors (4) for the read and causes the child to be
        // removed
        read_both(&mut n, &mut bad, false);
    }
    // error child should be removed from the IO path here
    assert_eq!(n.status(), NexusStatus::Degraded);
    assert_eq!(n.children[0].state, ChildState::Faulted(Reason::IoError));
    assert_eq!(n.children[0].err_store.records.len(), 5);

    // should succeed because both IOs go to the remaining child
    read_both(&mut n, &mut bad, true);
    // should succeed because the IO goes to the remaining child
    assert!(write(&mut n, &mut bad, &opts, 10_000_000));
    assert_eq!(bad.read_errors, 5);
    assert_eq!(bad.write_errors, 10);
}

/// One I/O through a handle that makes `retries` attempts at most, on a device that
/// fails the next `errors` I/Os.
fn io_with_retries(retries: Option<u32>, errors: &mut u32) -> Result<(), ()> {
    let mut retry = IoRetry::new();
    retry.set_retries(retries.unwrap_or(1));
    loop {
        let ok = if *errors > 0 {
            *errors -= 1;
            false
        } else {
            true
        };
        match retry.attempted(ok) {
            RetryDecision::Succeeded => return Ok(()),
            RetryDecision::Failed => return Err(()),
            RetryDecision::Retry => {}
        }
    }
}

#[test]
fn io_retry_test() {
    let mut errors = 0;
    io_with_retries(None, &mut errors).unwrap();
    io_with_retries(None, &mut errors).unwrap();

    // Test IO fails after injecting 1 error
    errors = 1;
    io_with_retries(None, &mut errors).expect_err("should fail write after injecting 1 error");
    errors = 1;
    io_with_retries(None, &mut errors).expect_err("should fail read after injecting 1 error");

    for i in 2..=3 {
        // Test IO succeeds after retrying 1 more time than number of
        // injected errors
        errors = i - 1;
        io_with_retries(Some(i), &mut errors).expect("should succeed write after injecting errors");
        errors = i - 1;
        io_with_retries(Some(i), &mut errors).expect("should succeed read after injecting errors");

        // Test IO fails after retrying as many times as injected errors
        errors = i;
        io_with_retries(Some(i), &mut errors).expect_err("should fail write after injecting errors");
        assert_eq!(errors, 0);
        errors = i;
        io_with_retries(Some(i), &mut errors).expect_err("should fail read after injecting errors");
    }
    // no attempts asked for: one is made
    errors = 0;
    assert_eq!(io_with_retries(Some(0), &mut errors), Ok(()));
}

#[test]
fn replica_timeout_fault() {
    let opts = ErrStoreOpts {
        err_store_size: 256,
        enable_err_store: true,
        action: ActionType::Ignore,
        max_errors: 64,
        retention_ns: 1_000_000_000,
        timeout_action: ActionType::Fault,
        timeout_sec: 1,
    };
    let mut n = nexus_of(&["nvmf:///replica1", "nvmf:///replica2"]);
    assert_eq!(n.status(), NexusStatus::Online);
    assert!(!opts.timed_out(999_999_999));
    assert!(opts.timed_out(1_000_000_000));
    assert!(opts.timed_out(3_000_000_000));
    assert!(!fault_opts().timed_out(u64::MAX));

    // failures alone do not fault the child
    for i in 0..100 {
        assert_eq!(
            n.error_record_add(&opts, "nvmf:///replica1", IoType::Write, IoErrorKind::Failure, 0, 1, i),
            Ok(None)
        );
    }
    assert_eq!(n.status(), NexusStatus::Online);
    // a write that timed out on one replica fails, and the replica is faulted
    let mut io = NexusIo::new(IoType::Write, 0, 1, n.write_targets().len() as u32);
    assert_eq!(io.child_completed(true), None);
    assert_eq!(
        n.error_record_add(&opts, "nvmf:///replica1", IoType::Write, IoErrorKind::Timeout, 0, 1, 200),
        Ok(Some(Reason::Timeout))
    );
    assert_eq!(io.child_completed(false), Some(false));
    assert_eq!(n.status(), NexusStatus::Degraded);
    // should write again after the child has been faulted
    assert_eq!(n.write_targets(), vec![1]);
    let mut io = NexusIo::new(IoType::Write, 0, 1, 1);
    assert_eq!(io.child_completed(true), Some(true));
}

#[test]
fn error_store_is_a_ring() {
    let mut store = NexusErrStore::new(3);
    assert_eq!(store.query(IoErrorKind::Failure, 0, 0), 0);
    for t in 1..=5u64 {
        store.add_record(IoType::Read, IoErrorKind::Failure, t, 1, t * 100);
    }
    // the three latest are kept
    let mut offsets: Vec<u64> = store.records.iter().map(|r| r.io_offset).collect();
    offsets.sort();
    assert_eq!(offsets, vec![3, 4, 5]);
    assert_eq!(
        store.records[store.next_record_index],
        NexusChildErrorRecord {
            io_offset: 3,
            io_num_blocks: 1,
            timestamp: 300,
            io_error: IoErrorKind::Failure,
            io_op: IoType::Read
        }
    );
    // the retention window
    assert_eq!(store.query(IoErrorKind::Failure, 500, 1000), 3);
    assert_eq!(store.query(IoErrorKind::Failure, 500, 100), 2);
    assert_eq!(store.query(IoErrorKind::Failure, 500, 99), 1);
    assert_eq!(store.query(IoErrorKind::Failure, 600, 99), 0);
    assert_eq!(store.query(IoErrorKind::Timeout, 500, 1000), 0);
    store.add_record(IoType::Write, IoErrorKind::Timeout, 6, 1, 600);
    assert_eq!(store.query(IoErrorKind::Timeout, 600, 0), 1);
    assert_eq!(store.query(IoErrorKind::Failure, 600, 1000), 2);

    let mut none = NexusErrStore::new(0);
    none.add_record(IoType::Read, IoErrorKind::Failure, 0, 1, 0);
    assert!(none.records.is_empty());
}

#[test]
fn policies_of_the_error_store() {
    let mut store = NexusErrStore::new(16);
    let opts = fault_opts();
    for t in 0..4 {
        store.add_record(IoType::Read, IoErrorKind::Failure, 0, 1, t);
    }
    assert_eq!(opts.assess(&store, 10), None);
    store.add_record(IoType::Write, IoErrorKind::Failure, 0, 1, 4);
    assert_eq!(opts.assess(&store, 10), Some(Reason::IoError));
    // the errors grow old
    assert_eq!(opts.assess(&store, 1_000_000_000), Some(Reason::IoError));
    assert_eq!(opts.assess(&store, 1_000_000_001), None);
    // with the store disabled, or set to ignore, nothing comes of them
    let mut off = opts;
    off.enable_err_store = false;
    assert_eq!(off.assess(&store, 10), None);
    let mut ignore = opts;
    ignore.action = ActionType::Ignore;
    assert_eq!(ignore.assess(&store, 10), None);
    // timeouts
    store.add_record(IoType::Write, IoErrorKind::Timeout, 0, 1, 5);
    assert_eq!(ignore.assess(&store, 10), None);
    ignore.timeout_action = ActionType::Fault;
    assert_eq!(ignore.assess(&store, 10), Some(Reason::Timeout));
    let mut both = opts;
    both.timeout_action = ActionType::Fault;
    assert_eq!(both.assess(&store, 10), Some(Reason::IoError));
}

#[test]
fn errors_do_not_fault_the_last_healthy_child() {
    let mut opts = fault_opts();
    opts.max_errors = 0;
    let mut n = nexus_of(&["bdev:///a", "bdev:///b"]);
    assert_eq!(
        n.error_record_add(&opts, "bdev:///a", IoType::Read, IoErrorKind::Failure, 8, 1, 0),
        Ok(Some(Reason::IoError))
    );
    assert_eq!(
        n.error_record_add(&opts, "bdev:///b", IoType::Read, IoErrorKind::Failure, 8, 1, 1),
        Ok(None)
    );
    assert_eq!(n.children[1].state, ChildState::Open);
    assert_eq!(n.children[1].err_store.records.len(), 1);
    assert_eq!(n.children[1].err_store.capacity, 256);
    assert_eq!(n.status(), NexusStatus::Degraded);
    assert_eq!(
        n.error_record_add(&opts, "bdev:///c", IoType::Read, IoErrorKind::Failure, 8, 1, 1),
        Err(NexusError::ChildNotFound {
            name: String::from("nexus0"),
            child: String::from("bdev:///c")
        })
    );
    opts.enable_err_store = false;
    assert_eq!(
        n.error_record_add(&opts, "bdev:///c", IoType::Read, IoErrorKind::Failure, 8, 1, 1),
        Ok(None)
    );
}

#[test]
fn write_needs_every_child() {
    let mut io = NexusIo::new(IoType::Write, 64, 8, 3);
    assert_eq!(io.child_completed(true), None);
    assert_eq!(io.child_completed(true), None);
    assert_eq!(io.child_completed(true), Some(true));
    for failing in 0..3 {
        let mut io = NexusIo::new(IoType::Write, 64, 8, 3);
        let mut done = None;
        for child in 0..3 {
            assert_eq!(done, None);
            done = io.child_completed(child != failing);
        }
        assert_eq!(done, Some(false));
    }
}

#[test]
fn io_goes_to_open_children_only() {
    let mut n = nexus_of(&["bdev:///a", "bdev:///b", "bdev:///c"]);
    assert_eq!(n.write_targets(), vec![0, 1, 2]);
    assert_eq!(n.read_target(0), Some(0));
    n.fault_child("bdev:///b", Reason::IoError).unwrap();
    assert_eq!(n.write_targets(), vec![0, 2]);
    assert_eq!(n.read_target(1), Some(2));
    assert_eq!(n.read_target(3), None);
    n.offline_child("bdev:///c").unwrap();
    assert_eq!(n.write_targets(), vec![0]);
    assert_eq!(n.read_target(1), None);
    n.offline_child("bdev:///a").unwrap();
    assert_eq!(n.write_targets(), Vec::<usize>::new());
    assert_eq!(n.read_target(0), None);
}

fn job(source: &str, destination: &str) -> RebuildJob {
    RebuildJob::new("nexus0", source, destination, 10240, 10240 + 1000, 128).unwrap()
}

#[test]
fn rebuild_copies_segment_by_segment() {
    let mut j = job("bdev:///a", "bdev:///b");
    assert_eq!(j.current, RebuildState::Init);
    assert_eq!(j.next_segment(), None);
    assert_eq!(j.exec_op(RebuildOperation::Start), Ok(()));
    assert_eq!(j.current, RebuildState::Running);
    let mut copied = 0;
    let mut expected = 10240;
    while let Some((block, blocks)) = j.next_segment() {
        assert_eq!(block, expected);
        assert!(blocks <= 128);
        expected += blocks;
        copied += blocks;
        assert_eq!(j.current, RebuildState::Running);
        j.segment_done(true);
    }
    assert_eq!(copied, 1000);
    assert_eq!(j.next, j.end);
    assert_eq!(j.current, RebuildState::Completed);
    assert_eq!(
        j.exec_op(RebuildOperation::Pause),
        Err(RebuildError::OpError {
            operation: RebuildOperation::Pause,
            state: RebuildState::Completed
        })
    );
    assert_eq!(
        RebuildJob::new("n", "a", "b", 5, 5, 1).err(),
        Some(RebuildError::InvalidParameters)
    );
    assert_eq!(
        RebuildJob::new("n", "a", "b", 0, 5, 0).err(),
        Some(RebuildError::InvalidParameters)
    );
}

#[test]
fn rebuild_pauses_when_its_io_has_drained() {
    let mut j = job("bdev:///a", "bdev:///b");
    j.exec_op(RebuildOperation::Start).unwrap();
    assert!(j.next_segment().is_some());
    assert!(j.next_segment().is_some());
    assert_eq!(j.outstanding, 2);
    assert_eq!(j.exec_op(RebuildOperation::Pause), Ok(()));
    // two copies are still under way
    assert_eq!(j.current, RebuildState::Running);
    assert_eq!(j.pending, Some(RebuildState::Paused));
    assert_eq!(j.next_segment(), None);
    assert_eq!(
        j.exec_op(RebuildOperation::Complete),
        Err(RebuildError::StatePending { operation: RebuildOperation::Complete })
    );
    j.segment_done(true);
    assert_eq!(j.current, RebuildState::Running);
    j.segment_done(true);
    assert_eq!(j.current, RebuildState::Paused);
    assert_eq!(j.outstanding, 0);
    assert_eq!(j.next_segment(), None);
    assert_eq!(j.next, 10240 + 256);
    assert_eq!(j.exec_op(RebuildOperation::Resume), Ok(()));
    assert_eq!(j.next_segment(), Some((10240 + 256, 128)));
    // a failed copy fails the job
    j.segment_done(false);
    assert_eq!(j.current, RebuildState::Failed);
    assert_eq!(
        j.exec_op(RebuildOperation::Start),
        Err(RebuildError::OpError { operation: RebuildOperation::Start, state: RebuildState::Failed })
    );

    let mut j = job("bdev:///a", "bdev:///b");
    assert_eq!(j.exec_op(RebuildOperation::Stop), Ok(()));
    assert_eq!(j.current, RebuildState::Stopped);
    let mut j = job("bdev:///a", "bdev:///b");
    j.exec_op(RebuildOperation::Start).unwrap();
    j.next_segment().unwrap();
    j.exec_op(RebuildOperation::Pause).unwrap();
    // a stop takes the place of the pause
    assert_eq!(j.exec_op(RebuildOperation::Stop), Ok(()));
    j.segment_done(true);
    assert_eq!(j.current, RebuildState::Stopped);
}

#[test]
fn rebuild_replica() {
    // 6-child nexus, add a 7th child, start rebuild
    let names: Vec<String> = (0..6).map(|i| format!("aio:////tmp/disk{}.img", i)).collect();
    let refs: Vec<&str> = names.iter().map(|s| s.as_str()).collect();
    let mut n = nexus_of(&refs);
    let mut jobs = RebuildJobs::new();
    let device = |name: &str| Bdev {
        name: String::from(name),
        block_len: 512,
        num_blocks: 131072,
        alignment: 9,
        uuid: GptGuid::default(),
    };
    let seventh = "aio:////tmp/disk6.img";
    assert_eq!(jobs.lookup(seventh).err(), Some(RebuildError::JobNotFound)); // Should not exist
    assert_eq!(n.add_child(seventh, "disk6", Some(device("disk6")), true), Ok((NexusStatus::Degraded, false)));
    assert!(jobs.lookup_src(&names[0]).is_empty()); // Should not have found any jobs!
    jobs.store(RebuildJob::new("nexus0", &names[0], seventh, 10240, 10240 + 512, 128).unwrap())
        .unwrap();
    assert_eq!(jobs.count(), 1);
    // a destination has one job at most
    assert_eq!(
        jobs.store(RebuildJob::new("nexus0", &names[1], seventh, 10240, 10240 + 512, 128).unwrap()),
        Err(RebuildError::JobAlreadyExists)
    );
    let at = jobs.find(seventh).unwrap();
    jobs.jobs[at].exec_op(RebuildOperation::Start).unwrap();
    assert_eq!(jobs.lookup(seventh).unwrap().current, RebuildState::Running);
    for &i in &jobs.lookup_src(&names[0]) {
        assert_eq!(jobs.jobs[i].source, names[0]);
    }
    assert_eq!(jobs.lookup_src(&names[0]).len(), 1);
    // pause; add an 8th child; start its rebuild
    jobs.jobs[at].exec_op(RebuildOperation::Pause).unwrap();
    assert_eq!(jobs.lookup(seventh).unwrap().current, RebuildState::Paused);
    let eighth = "aio:////tmp/disk7.img";
    n.add_child(eighth, "disk7", Some(device("disk7")), true).unwrap();
    jobs.store(RebuildJob::new("nexus0", &names[0], eighth, 10240, 10240 + 512, 128).unwrap())
        .unwrap();
    assert_eq!(jobs.lookup_src(&names[0]).len(), 2);
    let at = jobs.find(eighth).unwrap();
    jobs.jobs[at].exec_op(RebuildOperation::Start).unwrap();
    // wait for completion
    while jobs.jobs[at].next_segment().is_some() {
        jobs.jobs[at].segment_done(true);
    }
    let done = jobs.remove(eighth).unwrap();
    assert_eq!(done.current, RebuildState::Completed);
    assert_eq!(n.child_lookup(eighth).unwrap().state, ChildState::Faulted(Reason::OutOfSync));
    assert!(n.on_rebuild_update(eighth, done.current));
    assert_eq!(n.child_lookup(eighth).unwrap().state, ChildState::Open);
    assert_eq!(n.child_lookup(seventh).unwrap().state, ChildState::Faulted(Reason::OutOfSync));
    assert_eq!(n.status(), NexusStatus::Degraded);
    assert_eq!(jobs.count(), 1);
    assert_eq!(jobs.remove(eighth).err(), Some(RebuildError::JobNotFound));

    // the rebuild of the 7th child fails
    assert!(!n.on_rebuild_update(seventh, RebuildState::Failed));
    assert_eq!(n.child_lookup(seventh).unwrap().state, ChildState::Faulted(Reason::RebuildFailed));
    assert!(!n.on_rebuild_update(seventh, RebuildState::Completed));
    assert!(!n.on_rebuild_update("aio:////tmp/none.img", RebuildState::Completed));
    assert!(!n.on_rebuild_update(&names[0], RebuildState::Paused));
}

#[test]
fn rebuilds_that_touch_a_child_are_cancelled() {
    let mut jobs = RebuildJobs::new();
    jobs.store(job("bdev:///a", "bdev:///b")).unwrap();
    jobs.store(job("bdev:///a", "bdev:///c")).unwrap();
    jobs.store(job("bdev:///d", "bdev:///a")).unwrap();
    jobs.store(job("bdev:///d", "bdev:///e")).unwrap();
    for j in jobs.jobs.iter_mut().take(2) {
        j.exec_op(RebuildOperation::Start).unwrap();
    }
    // a copy of the first job is under way
    jobs.jobs[0].next_segment().unwrap();

    let restart = jobs.cancel_child_rebuild_jobs("bdev:///a");
    assert_eq!(restart, vec!["bdev:///b", "bdev:///c"]);
    assert_eq!(jobs.jobs[0].current, RebuildState::Running);
    assert_eq!(jobs.jobs[0].pending, Some(RebuildState::Stopped));
    assert_eq!(jobs.jobs[1].current, RebuildState::Stopped);
    assert_eq!(jobs.jobs[2].current, RebuildState::Stopped);
    assert_eq!(jobs.jobs[3].current, RebuildState::Init);
    jobs.jobs[0].segment_done(true);
    assert_eq!(jobs.jobs[0].current, RebuildState::Stopped);
    // stopped jobs stay as they are
    assert_eq!(jobs.cancel_child_rebuild_jobs("bdev:///a"), vec!["bdev:///b", "bdev:///c"]);
    assert_eq!(jobs.jobs[1].current, RebuildState::Stopped);
    assert!(jobs.cancel_child_rebuild_jobs("bdev:///x").is_empty());
    assert_eq!(jobs.count(), 4);
}

#[test]
fn new_nexus_has_no_children() {
    let n = Nexus::new("nexus0", 64 * MIB);
    assert_eq!(n.name, "nexus0");
    assert_eq!(n.size, 64 * MIB);
    assert_eq!(n.child_count, 0);
    assert_eq!(n.state, NexusState::Init);
    assert_eq!(n.status(), NexusStatus::Faulted);
    assert_eq!(n.min_num_blocks(), u64::MAX);
}

fn device(name: &str) -> Bdev {
    Bdev {
        name: String::from(name),
        block_len: 512,
        num_blocks: 131072,
        alignment: 9,
        uuid: GptGuid::default(),
    }
}

/// A nexus of three open children that presents 100000 blocks from
/// block 10240 of its children on.
fn nexus_with_data() -> Nexus {
    let mut n = nexus_of(&["bdev:///a", "bdev:///b", "bdev:///c"]);
    n.data_ent_offset = 10240;
    n.num_blocks = 100000;
    n
}

#[test]
fn add_child_starts_its_rebuild() {
    let mut n = nexus_with_data();
    let mut jobs = RebuildJobs::new();
    assert_eq!(
        n.add_child_and_rebuild(&mut jobs, "bdev:///d", "d", Some(device("d")), false, 128),
        Ok(NexusStatus::Degraded)
    );
    assert_eq!(jobs.count(), 1);
    let job = jobs.lookup("bdev:///d").unwrap();
    assert_eq!(job.nexus, "nexus0");
    assert_eq!(job.source, "bdev:///a");
    assert_eq!(job.destination, "bdev:///d");
    assert_eq!((job.start, job.end, job.next), (10240, 110240, 10240));
    assert_eq!(job.segment_size_blks, 128);
    assert_eq!(job.current, RebuildState::Running);
    assert_eq!(job.pending, None);
    assert_eq!(n.child_lookup("bdev:///d").unwrap().state, ChildState::Faulted(Reason::OutOfSync));
    assert_eq!(n.child_count, 4);

    // the first open child other than the destination is the source
    n.fault_child("bdev:///a", Reason::IoError).unwrap();
    assert_eq!(
        n.add_child_and_rebuild(&mut jobs, "bdev:///e", "e", Some(device("e")), false, 64),
        Ok(NexusStatus::Degraded)
    );
    assert_eq!(jobs.lookup("bdev:///e").unwrap().source, "bdev:///b");
    assert_eq!(jobs.count(), 2);

    // without a rebuild no job is made
    assert_eq!(
        n.add_child_and_rebuild(&mut jobs, "bdev:///f", "f", Some(device("f")), true, 64),
        Ok(NexusStatus::Degraded)
    );
    assert_eq!(jobs.count(), 2);
    assert_eq!(n.child_lookup("bdev:///f").unwrap().state, ChildState::Faulted(Reason::OutOfSync));
}

#[test]
fn add_child_whose_rebuild_does_not_start() {
    // no segment has a size
    let mut n = nexus_with_data();
    let mut jobs = RebuildJobs::new();
    assert_eq!(
        n.add_child_and_rebuild(&mut jobs, "bdev:///d", "d", Some(device("d")), false, 0),
        Ok(NexusStatus::Degraded)
    );
    assert_eq!(jobs.count(), 0);
    assert_eq!(
        n.child_lookup("bdev:///d").unwrap().state,
        ChildState::Faulted(Reason::RebuildFailed)
    );

    // nothing is open to copy from
    let mut n = nexus_with_data();
    n.state = NexusState::Open;
    for name in ["bdev:///a", "bdev:///b", "bdev:///c"] {
        n.offline_child(name).unwrap();
    }
    assert_eq!(
        n.add_child_and_rebuild(&mut jobs, "bdev:///d", "d", Some(device("d")), false, 128),
        Ok(NexusStatus::Faulted)
    );
    assert_eq!(jobs.count(), 0);
    assert_eq!(
        n.child_lookup("bdev:///d").unwrap().state,
        ChildState::Faulted(Reason::RebuildFailed)
    );

    // a device that does not fit is refused, and no job is made
    let mut n = nexus_with_data();
    let before = n.children.len();
    let small = Bdev { num_blocks: 1024, ..device("d") };
    assert!(n.add_child_and_rebuild(&mut jobs, "bdev:///d", "d", Some(small), false, 128).is_err());
    assert!(n.add_child_and_rebuild(&mut jobs, "bdev:///d", "d", None, false, 128).is_err());
    assert_eq!(n.children.len(), before);
    assert_eq!(jobs.count(), 0);
}

#[test]
fn start_rebuild_says_what_stands_against_it() {
    let mut n = nexus_with_data();
    let mut jobs = RebuildJobs::new();
    n.add_child("bdev:///d", "d", Some(device("d")), true).unwrap();

    // an open child is no destination, nor is a stranger
    assert_eq!(n.start_rebuild(&mut jobs, "bdev:///a", 128), Err(RebuildError::NoDestination));
    assert_eq!(n.start_rebuild(&mut jobs, "bdev:///x", 128), Err(RebuildError::NoDestination));
    assert_eq!(n.start_rebuild(&mut jobs, "bdev:///d", 0), Err(RebuildError::InvalidParameters));
    n.num_blocks = 0;
    assert_eq!(n.start_rebuild(&mut jobs, "bdev:///d", 128), Err(RebuildError::InvalidParameters));
    n.num_blocks = u64::MAX;
    assert_eq!(n.start_rebuild(&mut jobs, "bdev:///d", 128), Err(RebuildError::InvalidParameters));
    n.num_blocks = u64::MAX - 10240;
    assert_eq!(jobs.count(), 0);
    assert_eq!(n.start_rebuild(&mut jobs, "bdev:///d", 128), Ok(()));
    assert_eq!(jobs.lookup("bdev:///d").unwrap().end, u64::MAX);
    assert_eq!(n.start_rebuild(&mut jobs, "bdev:///d", 128), Err(RebuildError::JobAlreadyExists));
    assert_eq!(jobs.count(), 1);

    assert_eq!(n.rebuild_source("bdev:///a"), Some(1));
    assert_eq!(n.rebuild_source("bdev:///d"), Some(0));
    for name in ["bdev:///a", "bdev:///b", "bdev:///c"] {
        n.offline_child(name).unwrap();
    }
    assert_eq!(n.rebuild_source("bdev:///d"), None);
    jobs.remove("bdev:///d").unwrap();
    assert_eq!(n.start_rebuild(&mut jobs, "bdev:///d", 128), Err(RebuildError::NoSource));
}

fn running_jobs() -> RebuildJobs {
    let mut jobs = RebuildJobs::new();
    jobs.store(job("bdev:///a", "bdev:///d")).unwrap();
    jobs.store(job("bdev:///b", "bdev:///e")).unwrap();
    jobs.store(job("bdev:///c", "bdev:///a")).unwrap();
    for j in jobs.jobs.iter_mut() {
        j.exec_op(RebuildOperation::Start).unwrap();
    }
    jobs
}

#[test]
fn fault_cancels_and_restarts_rebuilds() {
    let mut n = nexus_with_data();
    let mut jobs = running_jobs();
    assert_eq!(jobs.child_rebuild_jobs("bdev:///a"), vec!["bdev:///d", "bdev:///a"]);
    assert_eq!(jobs.child_rebuild_jobs("bdev:///b"), vec!["bdev:///e"]);
    assert!(jobs.child_rebuild_jobs("bdev:///x").is_empty());

    let (result, orders) = n.fault_child_and_rebuilds(&mut jobs, "bdev:///a", Reason::IoError);
    assert_eq!(result, Ok(()));
    assert_eq!(
        orders,
        RebuildOrders {
            cancelled: vec![String::from("bdev:///d"), String::from("bdev:///a")],
            reconfigure: true,
            restart: vec![String::from("bdev:///d")],
        }
    );
    assert_eq!(n.child_lookup("bdev:///a").unwrap().state, ChildState::Faulted(Reason::IoError));
    assert_eq!(jobs.jobs[0].current, RebuildState::Stopped);
    assert_eq!(jobs.jobs[1].current, RebuildState::Running);
    assert_eq!(jobs.jobs[2].current, RebuildState::Stopped);

    // a child that is faulted already: its jobs are stopped all the same
    let mut jobs = running_jobs();
    let (result, orders) = n.fault_child_and_rebuilds(&mut jobs, "bdev:///a", Reason::Timeout);
    assert_eq!(result, Ok(()));
    assert!(!orders.reconfigure);
    assert_eq!(orders.restart, vec!["bdev:///d"]);
    assert_eq!(n.child_lookup("bdev:///a").unwrap().state, ChildState::Faulted(Reason::IoError));
    assert_eq!(jobs.jobs[0].current, RebuildState::Stopped);

    // no such child: the jobs are stopped and started again all the same
    let mut jobs = running_jobs();
    jobs.store(job("bdev:///x", "bdev:///y")).unwrap();
    let (result, orders) = n.fault_child_and_rebuilds(&mut jobs, "bdev:///x", Reason::IoError);
    assert!(matches!(result, Err(NexusError::ChildNotFound { .. })));
    assert_eq!(orders.cancelled, vec!["bdev:///y"]);
    assert_eq!(orders.restart, vec!["bdev:///y"]);
    assert!(!orders.reconfigure);
    assert_eq!(jobs.jobs[3].current, RebuildState::Stopped);
}

#[test]
fn refused_fault_touches_no_rebuild() {
    // the last healthy child
    let mut n = nexus_with_data();
    n.fault_child("bdev:///b", Reason::IoError).unwrap();
    n.fault_child("bdev:///c", Reason::IoError).unwrap();
    let mut jobs = running_jobs();
    assert!(n.is_last_healthy("bdev:///a"));
    assert!(!n.is_last_healthy("bdev:///b"));
    assert!(!n.is_last_healthy("bdev:///x"));
    let (result, orders) = n.fault_child_and_rebuilds(&mut jobs, "bdev:///a", Reason::IoError);
    assert!(matches!(result, Err(NexusError::FaultingLastHealthyChild { .. })));
    assert_eq!(
        orders,
        RebuildOrders { cancelled: vec![], reconfigure: false, restart: vec![] }
    );
    assert_eq!(jobs, running_jobs());
    assert_eq!(n.child_lookup("bdev:///a").unwrap().state, ChildState::Open);

    // a nexus of one child
    let mut n = nexus_of(&["bdev:///a"]);
    let (result, orders) = n.fault_child_and_rebuilds(&mut jobs, "bdev:///a", Reason::IoError);
    assert!(matches!(result, Err(NexusError::RemoveLastChild { .. })));
    assert!(orders.cancelled.is_empty() && orders.restart.is_empty() && !orders.reconfigure);
    assert_eq!(jobs, running_jobs());
}

#[test]
fn offline_cancels_and_restarts_rebuilds() {
    let mut n = nexus_with_data();
    let mut jobs = running_jobs();
    let (result, orders) = n.offline_child_and_rebuilds(&mut jobs, "bdev:///b");
    assert_eq!(result, Ok(NexusStatus::Degraded));
    assert_eq!(
        orders,
        RebuildOrders {
            cancelled: vec![String::from("bdev:///e")],
            reconfigure: true,
            restart: vec![String::from("bdev:///e")],
        }
    );
    assert_eq!(n.child_lookup("bdev:///b").unwrap().state, ChildState::Closed);
    assert_eq!(jobs.jobs[1].current, RebuildState::Stopped);

    let (result, orders) = n.offline_child_and_rebuilds(&mut jobs, "bdev:///d");
    assert!(matches!(result, Err(NexusError::ChildNotFound { .. })));
    assert_eq!(orders.cancelled, vec!["bdev:///d"]);
    assert!(orders.restart.is_empty());
    assert!(!orders.reconfigure);
}

#[test]
fn removal_cancels_and_restarts_rebuilds() {
    let mut n = nexus_with_data();
    let mut jobs = running_jobs();
    let orders = n.begin_remove_child(&mut jobs, "bdev:///a").unwrap();
    assert_eq!(
        orders,
        RemovalOrders {
            cancelled: vec![String::from("bdev:///d"), String::from("bdev:///a")],
            close: true,
            restart: vec![String::from("bdev:///d")],
        }
    );
    assert_eq!(jobs.jobs[0].current, RebuildState::Stopped);
    assert_eq!(jobs.jobs[2].current, RebuildState::Stopped);
    assert_eq!(n.child_count, 3);
    let restart = n.finish_remove_child("bdev:///a", true, orders).unwrap();
    assert_eq!(restart, vec!["bdev:///d"]);
    assert_eq!(n.child_count, 2);
    assert!(n.child_lookup("bdev:///a").is_none());

    // a child that could not be closed stays, and nothing is started again
    let orders = n.begin_remove_child(&mut jobs, "bdev:///b").unwrap();
    assert!(matches!(
        n.finish_remove_child("bdev:///b", false, orders),
        Err(NexusError::CloseChild { .. })
    ));
    assert_eq!(n.child_count, 2);

    // no such child: success, nothing to close, nothing started again
    let mut jobs = running_jobs();
    let orders = n.begin_remove_child(&mut jobs, "bdev:///a").unwrap();
    assert!(!orders.close);
    assert_eq!(orders.restart, vec!["bdev:///d"]);
    assert_eq!(n.finish_remove_child("bdev:///a", true, orders), Ok(vec![]));
    assert_eq!(n.child_count, 2);

    // the last child is not removed, and its jobs run on
    let mut n = nexus_of(&["bdev:///a"]);
    let mut jobs = running_jobs();
    assert!(matches!(
        n.begin_remove_child(&mut jobs, "bdev:///a"),
        Err(NexusError::DestroyLastChild { .. })
    ));
    assert_eq!(jobs, running_jobs());
}
